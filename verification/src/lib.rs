//! Short-link allocation over an embedded key-value store.
//!
//! The crate keeps links and their owners in two namespaces of a `sled`
//! database, encodes them with a small length-prefixed byte format, and
//! allocates short tokens that resolve to a destination URL.

pub mod codec;
pub mod engine;
pub mod error;
pub mod link_create;
pub mod model;
pub mod outcomes;
pub mod repository;
pub mod text;
pub mod consistency;

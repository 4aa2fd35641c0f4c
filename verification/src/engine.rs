//! The embedded key-value engine, `sled`, as the repositories see it.
//!
//! A namespace is shared by every handle on it and by every concurrent
//! caller, so nothing here claims to know what it holds: each operation
//! reports what the engine answered, and the callers decide on that.

use vstd::prelude::*;
use vstd::utf8::*;

verus! {

#[verifier::external_type_specification]
#[verifier::external_body]
pub struct ExDb(sled::Db);

#[verifier::external_type_specification]
#[verifier::external_body]
pub struct ExTree(sled::Tree);

#[verifier::external_type_specification]
#[verifier::external_body]
pub struct ExEngineError(sled::Error);

/// The one long-lived database that every repository shares.
pub struct Store {
    pub db: sled::Db,
}

/// The name that a namespace carries: what `sled::Tree::name` returns
/// for it. A tree keeps the name it was opened under, whatever is stored
/// in it.
pub uninterp spec fn namespace_name(tree: sled::Tree) -> Seq<u8>;

/// The name of the namespace with this tag: the tag's UTF-8 bytes.
pub open spec fn tag_name(tag: char) -> Seq<u8> {
    encode_utf8(seq![tag])
}

/// `sled::Db::open_tree` on the one-character name of a namespace. A tree
/// that comes back is the one of that name: the engine hands out the
/// tree it keeps under the name, or makes one with it. Whether one comes
/// back is the engine's to say.
#[verifier::external_body]
pub(crate) fn open_namespace(db: &sled::Db, tag: char) -> (namespace: Result<
    sled::Tree,
    sled::Error,
>)
    ensures
        namespace matches Ok(tree) ==> namespace_name(tree) == tag_name(tag),
{
    db.open_tree(tag.to_string())
}

/// `sled::Db::generate_id`. Nothing is claimed of the number.
#[verifier::external_body]
pub(crate) fn next_id(db: &sled::Db) -> Result<u64, sled::Error> {
    db.generate_id()
}

/// `sled::Tree::get`, the value copied out of the engine's buffer.
/// Nothing is claimed of the answer.
#[verifier::external_body]
pub(crate) fn get(tree: &sled::Tree, key: &[u8]) -> Result<Option<Vec<u8>>, sled::Error> {
    Ok(tree.get(key)?.map(|value| value.to_vec()))
}

/// `sled::Tree::compare_and_swap` with a new value: `Ok(true)` where the
/// engine swapped, `Ok(false)` where it found another current value than
/// `expected`. Nothing is claimed of which of them comes back.
#[verifier::external_body]
pub(crate) fn compare_and_swap(
    tree: &sled::Tree,
    key: &[u8],
    expected: Option<&Vec<u8>>,
    new: Vec<u8>,
) -> Result<bool, sled::Error> {
    match tree.compare_and_swap(key, expected, Some(new))? {
        Ok(()) => Ok(true),
        Err(_) => Ok(false),
    }
}

} // verus!

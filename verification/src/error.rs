//! Error types of the storage layer and of the allocation workflow.

use vstd::prelude::*;

verus! {

/// What a repository operation can report.
#[derive(Clone, Copy, Debug, PartialEq, Eq, Structural)]
pub enum StorageError {
    /// The engine itself failed (I/O, corruption, read-only database).
    Engine,
    /// Stored bytes are not an encoding of the entity.
    Codec,
    /// A create found the key taken, or an update kept losing the race.
    Conflict,
    /// An update addressed a key under which nothing is stored.
    NotFound,
}

/// Why a change to a stored user was refused before any write.
#[derive(Clone, Copy, Debug, PartialEq, Eq, Structural)]
pub enum ChangeError {
    /// The link identifier is already in the owner's list.
    DuplicateLink,
}

/// What an update can report: the storage layer's error, or the refusal of
/// the change itself, handed through as it was raised.
#[derive(Clone, Copy, Debug, PartialEq, Eq, Structural)]
pub enum UpdateError {
    Storage(StorageError),
    Rejected(ChangeError),
}

/// Every way an allocation can end without a link for the caller.
#[derive(Clone, Copy, Debug, PartialEq, Eq, Structural)]
pub enum LinkAllocationError {
    /// No verified caller identity.
    Unauthorized,
    /// The destination is not a well-formed absolute URL.
    InvalidUrl,
    /// The caller's token is empty or only white space.
    CustomTokenInvalid,
    /// The caller's token is already taken.
    CustomTokenUsed,
    /// Every generated candidate collided.
    AllocationExhausted,
    /// The engine or the codec failed while looking up or creating the link.
    Storage(StorageError),
    /// The link with this identifier is stored, but its owner's record
    /// could not be extended.
    OwnerUpdateFailed { link_id: u64 },
}

} // verus!

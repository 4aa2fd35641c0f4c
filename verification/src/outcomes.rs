//! What a repository returns for each answer of the engine.
//!
//! These functions touch no engine: they take its answer as a value, so
//! each has an exact contract.

use vstd::prelude::*;
use crate::codec::{decode_user, encode_user, spec_decode_user, spec_encode_user, Entity};
use crate::error::{ChangeError, StorageError, UpdateError};
use crate::model::{User, UserView};
use crate::repository::UPDATE_ATTEMPTS;

verus! {

/// A change to a stored user.
#[derive(Clone, Copy, Debug, PartialEq, Eq, Structural)]
pub enum UserChange {
    /// Put this link identifier behind the ones the user already has.
    AppendLink(u64),
}

/// A lookup's result, with the entity taken by its view.
pub open spec fn lookup_view<E: Entity>(found: Result<Option<E>, StorageError>) -> Result<
    Option<E::V>,
    StorageError,
> {
    match found {
        Ok(Some(entity)) => Ok(Some(entity@)),
        Ok(None) => Ok(None),
        Err(e) => Err(e),
    }
}

/// Nothing stored is no entity; stored bytes are the entity they encode,
/// or a codec error.
pub open spec fn spec_found<E: Entity>(stored: Option<Seq<u8>>) -> Result<
    Option<E::V>,
    StorageError,
> {
    match stored {
        None => Ok(None),
        Some(bytes) => match E::spec_decode(bytes) {
            Some(entity) => Ok(Some(entity)),
            None => Err(StorageError::Codec),
        },
    }
}

/// An answer of the engine as a repository reports it: a value as it came,
/// any failure of the engine as `Engine`.
pub fn reported<T>(answer: Result<T, sled::Error>) -> (report: Result<T, StorageError>)
    ensures
        match answer {
            Ok(value) => report == Ok::<T, StorageError>(value),
            Err(_) => report == Err::<T, StorageError>(StorageError::Engine),
        },
{
    match answer {
        Ok(value) => Ok(value),
        Err(_) => Err(StorageError::Engine),
    }
}

/// The stored bytes, if any, taken by their view.
pub open spec fn stored_view(stored: Option<Vec<u8>>) -> Option<Seq<u8>> {
    match stored {
        Some(bytes) => Some(bytes@),
        None => None,
    }
}

pub fn found<E: Entity>(stored: Option<Vec<u8>>) -> (found: Result<Option<E>, StorageError>)
    ensures
        lookup_view(found) == spec_found::<E>(stored_view(stored)),
{
    match stored {
        None => Ok(None),
        Some(bytes) => match E::decode(bytes.as_slice()) {
            Some(entity) => Ok(Some(entity)),
            None => Err(StorageError::Codec),
        },
    }
}

/// What a create returns once the engine has answered its
/// compare-and-swap against an absent value: the entity where the engine
/// swapped, a `Conflict` where it found the key taken.
pub open spec fn spec_created<E>(entity: E, swapped: bool) -> Result<E, StorageError> {
    if swapped {
        Ok(entity)
    } else {
        Err(StorageError::Conflict)
    }
}

pub fn created<E>(entity: E, swapped: bool) -> (made: Result<E, StorageError>)
    ensures
        made == spec_created(entity, swapped),
{
    if swapped {
        Ok(entity)
    } else {
        Err(StorageError::Conflict)
    }
}

/// The user after `change`: an identifier is appended unless the user has
/// it already.
pub open spec fn spec_apply_change(user: UserView, change: UserChange) -> Result<
    UserView,
    ChangeError,
> {
    match change {
        UserChange::AppendLink(link_id) => if user.links_ids.contains(link_id) {
            Err(ChangeError::DuplicateLink)
        } else {
            Ok(UserView { id: user.id, links_ids: user.links_ids.push(link_id) })
        },
    }
}

pub fn apply_change(user: User, change: UserChange) -> (changed: Result<User, ChangeError>)
    ensures
        match changed {
            Ok(next) => spec_apply_change(user@, change) == Ok::<UserView, ChangeError>(next@),
            Err(e) => spec_apply_change(user@, change) == Err::<UserView, ChangeError>(e),
        },
{
    match change {
        UserChange::AppendLink(link_id) => {
            if user.owns(link_id) {
                Err(ChangeError::DuplicateLink)
            } else {
                let mut next = user;
                next.links_ids.push(link_id);
                Ok(next)
            }
        },
    }
}

/// What one round of an update is to write, for what it read: the changed
/// user and its bytes; or why there is nothing to write.
pub open spec fn spec_next_user(stored: Option<Seq<u8>>, change: UserChange) -> Result<
    (UserView, Seq<u8>),
    UpdateError,
> {
    match stored {
        None => Err(UpdateError::Storage(StorageError::NotFound)),
        Some(bytes) => match spec_decode_user(bytes) {
            None => Err(UpdateError::Storage(StorageError::Codec)),
            Some(user) => match spec_apply_change(user, change) {
                Err(e) => Err(UpdateError::Rejected(e)),
                Ok(next) => Ok((next, spec_encode_user(next))),
            },
        },
    }
}

pub fn next_user(stored: &Option<Vec<u8>>, change: UserChange) -> (next: Result<
    (User, Vec<u8>),
    UpdateError,
>)
    ensures
        match next {
            Ok((user, bytes)) => spec_next_user(stored_view(*stored), change) == Ok::<
                (UserView, Seq<u8>),
                UpdateError,
            >((user@, bytes@)),
            Err(e) => spec_next_user(stored_view(*stored), change) == Err::<
                (UserView, Seq<u8>),
                UpdateError,
            >(e),
        },
{
    match stored {
        None => Err(UpdateError::Storage(StorageError::NotFound)),
        Some(bytes) => match decode_user(bytes.as_slice()) {
            None => Err(UpdateError::Storage(StorageError::Codec)),
            Some(user) => match apply_change(user, change) {
                Err(e) => Err(UpdateError::Rejected(e)),
                Ok(next) => {
                    let bytes = encode_user(&next);
                    Ok((next, bytes))
                },
            },
        },
    }
}

/// Where an update stands after one attempt to write.
#[derive(Debug, PartialEq, Eq)]
pub enum Round {
    /// The changed user is stored.
    Done(User),
    /// The stored bytes were no longer the ones read; read again.
    Again,
    /// The update ends without a write.
    Failed(UpdateError),
}

/// The round after the `attempt`-th write, counted from one: the user
/// where the engine swapped; another read where it did not and attempts
/// are left; a `Conflict` where none is; the engine's failure as it came.
pub open spec fn spec_after_write(
    attempt: nat,
    user: User,
    swapped: Result<bool, StorageError>,
) -> Round {
    match swapped {
        Ok(true) => Round::Done(user),
        Ok(false) => if attempt < UPDATE_ATTEMPTS {
            Round::Again
        } else {
            Round::Failed(UpdateError::Storage(StorageError::Conflict))
        },
        Err(e) => Round::Failed(UpdateError::Storage(e)),
    }
}

pub fn after_write(attempt: usize, user: User, swapped: Result<bool, StorageError>) -> (round:
    Round)
    ensures
        round == spec_after_write(attempt as nat, user, swapped),
{
    match swapped {
        Ok(true) => Round::Done(user),
        Ok(false) => {
            if attempt < UPDATE_ATTEMPTS {
                Round::Again
            } else {
                Round::Failed(UpdateError::Storage(StorageError::Conflict))
            }
        },
        Err(e) => Round::Failed(UpdateError::Storage(e)),
    }
}

} // verus!

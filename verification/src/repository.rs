//! Repositories: one namespace of the engine per kind of entity, with
//! lookup by key, create-if-absent, and an optimistic update.
//!
//! The engine is shared, so a repository function cannot know in advance
//! what it will answer. Each one hands the answer to a function of
//! `outcomes`, which says exactly what is returned for it, and states here
//! what holds of every answer.

use std::sync::Arc;
use vstd::prelude::*;
use crate::codec::{link_fits, user_fits, Entity};
use crate::engine::{
    compare_and_swap, get, namespace_name, next_id, open_namespace, tag_name, Store,
};
use crate::error::{ChangeError, StorageError, UpdateError};
use crate::model::{Link, User, UserView};
use crate::outcomes::{
    after_write, created, found, lookup_view, next_user, reported, spec_apply_change,
    spec_found, stored_view, Round, UserChange,
};

verus! {

/// The namespace of the links.
pub const LINK_REPOSITORY_TREE: char = 'l';

/// The namespace of the users.
pub const USER_REPOSITORY_TREE: char = 'u';

/// How often an update reads, changes and tries to write before it gives up.
pub const UPDATE_ATTEMPTS: usize = 8;

/// What a caller supplies of a link that is to be created.
pub struct CreateLinkDto {
    pub original_url: String,
    pub owner_id: Vec<u8>,
    pub custom_hash: Option<String>,
}

/// `chrono::Local::now`, as milliseconds since the Unix epoch. Nothing is
/// claimed of the number.
#[verifier::external_body]
fn now_millis() -> i64 {
    chrono::Local::now().timestamp_millis()
}

impl Link {
    /// A link of the draft's destination and owner, with no identifier and
    /// no key yet, created at the first time given and updated at the
    /// second. The draft's token is not taken over: the key is for the
    /// repository to set.
    pub fn stamped(value: CreateLinkDto, created_at: i64, updated_at: i64) -> (link: Link)
        ensures
            link@.original_url == value.original_url@,
            link@.owner_id == value.owner_id@,
            link@.id == 0,
            link@.key == Seq::<u8>::empty(),
            link@.created_at == created_at,
            link@.updated_at == updated_at,
    {
        Link {
            id: 0,
            key: Vec::new(),
            original_url: value.original_url,
            owner_id: value.owner_id,
            created_at,
            updated_at,
        }
    }

    /// The draft `stamped` with two readings of the clock, the first for
    /// the creation and the second for the update.
    pub fn from(value: CreateLinkDto) -> (link: Link)
        ensures
            link@.original_url == value.original_url@,
            link@.owner_id == value.owner_id@,
            link@.id == 0,
            link@.key == Seq::<u8>::empty(),
    {
        let created_at = now_millis();
        let updated_at = now_millis();
        Link::stamped(value, created_at, updated_at)
    }
}

fn fetch(tree: &sled::Tree, key: &[u8]) -> (stored: Result<Option<Vec<u8>>, StorageError>)
    ensures
        stored is Err ==> stored == Err::<Option<Vec<u8>>, StorageError>(StorageError::Engine),
{
    reported(get(tree, key))
}

fn swap(tree: &sled::Tree, key: &[u8], expected: Option<&Vec<u8>>, new: Vec<u8>) -> (swapped:
    Result<bool, StorageError>)
    ensures
        swapped is Err ==> swapped == Err::<bool, StorageError>(StorageError::Engine),
{
    reported(compare_and_swap(tree, key, expected, new))
}

/// Looks `key` up in the namespace, if it could be opened. Whatever the
/// engine answers, the result is what `found` gives for that answer, or
/// the engine's failure.
fn find<E: Entity>(namespace: Result<sled::Tree, sled::Error>, key: &[u8]) -> (found: Result<
    Option<E>,
    StorageError,
>)
    ensures
        found == Err::<Option<E>, StorageError>(StorageError::Engine) || exists|
            stored: Option<Seq<u8>>,
        |
            lookup_view(found) == spec_found::<E>(stored),
{
    let tree = match namespace {
        Ok(tree) => tree,
        Err(_) => return Err(StorageError::Engine),
    };
    match fetch(&tree, key) {
        Ok(stored) => {
            let ghost answer = stored_view(stored);
            let found = found::<E>(stored);
            assert(lookup_view(found) == spec_found::<E>(answer));
            found
        },
        Err(e) => Err(e),
    }
}

/// Stores `entity` under `key` in the namespace, if it could be opened and
/// the key is free.
fn create<E: Entity>(namespace: Result<sled::Tree, sled::Error>, key: &[u8], entity: E) -> (made:
    Result<E, StorageError>)
    ensures
        match made {
            Ok(stored) => stored == entity && E::fits(entity@),
            Err(e) => e == StorageError::Engine || e == StorageError::Conflict,
        },
{
    let tree = match namespace {
        Ok(tree) => tree,
        Err(_) => return Err(StorageError::Engine),
    };
    let bytes = entity.encode();
    match swap(&tree, key, None, bytes) {
        Ok(swapped) => created(entity, swapped),
        Err(e) => Err(e),
    }
}

pub struct LinkRepository {
    store: Arc<Store>,
}

impl LinkRepository {
    /// The store that this repository works on.
    pub closed spec fn store(&self) -> Store {
        *self.store
    }

    pub fn new(store: Arc<Store>) -> (repository: Self)
        ensures
            repository.store() == *store,
    {
        Self { store }
    }

    /// Opens the namespace of the links. A tree that comes back is the one
    /// named by `LINK_REPOSITORY_TREE`.
    fn get_tree(&self) -> (namespace: Result<sled::Tree, sled::Error>)
        ensures
            namespace matches Ok(tree) ==> namespace_name(tree) == tag_name(LINK_REPOSITORY_TREE),
    {
        open_namespace(&self.store.db, LINK_REPOSITORY_TREE)
    }

    /// Looks the key up. Whatever the engine answers, the result is what
    /// `found` gives for that answer, or the engine's failure.
    pub fn find_by_key(&self, key: &[u8]) -> (found: Result<Option<Link>, StorageError>)
        ensures
            found == Err::<Option<Link>, StorageError>(StorageError::Engine) || exists|
                stored: Option<Seq<u8>>,
            |
                lookup_view(found) == spec_found::<Link>(stored),
    {
        find::<Link>(self.get_tree(), key)
    }

    /// Stores a new link under `key`, if the key is free. The link gets a
    /// fresh identifier and the key; destination and owner are the draft's.
    /// A taken key is a `Conflict`, and nothing fails on the codec.
    pub fn create_with_key(&self, key: &[u8], draft: CreateLinkDto) -> (made: Result<
        Link,
        StorageError,
    >)
        ensures
            match made {
                Ok(link) => {
                    &&& link@.key == key@
                    &&& link@.original_url == draft.original_url@
                    &&& link@.owner_id == draft.owner_id@
                    &&& link_fits(link@)
                },
                Err(e) => e == StorageError::Engine || e == StorageError::Conflict,
            },
    {
        let id = match next_id(&self.store.db) {
            Ok(id) => id,
            Err(_) => return Err(StorageError::Engine),
        };
        let mut link = Link::from(draft);
        link.id = id;
        link.key = vstd::slice::slice_to_vec(key);
        create::<Link>(self.get_tree(), key, link)
    }
}

pub struct UserRepository {
    store: Arc<Store>,
}

impl UserRepository {
    /// The store that this repository works on.
    pub closed spec fn store(&self) -> Store {
        *self.store
    }

    pub fn new(store: Arc<Store>) -> (repository: Self)
        ensures
            repository.store() == *store,
    {
        Self { store }
    }

    /// Opens the namespace of the users. A tree that comes back is the one
    /// named by `USER_REPOSITORY_TREE`.
    fn get_tree(&self) -> (namespace: Result<sled::Tree, sled::Error>)
        ensures
            namespace matches Ok(tree) ==> namespace_name(tree) == tag_name(USER_REPOSITORY_TREE),
    {
        open_namespace(&self.store.db, USER_REPOSITORY_TREE)
    }

    /// Looks the key up. Whatever the engine answers, the result is what
    /// `found` gives for that answer, or the engine's failure.
    pub fn find_by_key(&self, key: &[u8]) -> (found: Result<Option<User>, StorageError>)
        ensures
            found == Err::<Option<User>, StorageError>(StorageError::Engine) || exists|
                stored: Option<Seq<u8>>,
            |
                lookup_view(found) == spec_found::<User>(stored),
    {
        find::<User>(self.get_tree(), key)
    }

    /// Stores `draft` under `key`, if the key is free, and hands it back.
    /// A taken key is a `Conflict`, and nothing fails on the codec.
    pub fn create_with_key(&self, key: &[u8], draft: User) -> (made: Result<User, StorageError>)
        ensures
            match made {
                Ok(user) => user@ == draft@ && user_fits(user@),
                Err(e) => e == StorageError::Engine || e == StorageError::Conflict,
            },
    {
        create::<User>(self.get_tree(), key, draft)
    }

    /// Reads the user under `id`, applies `change`, and writes the result
    /// back if the stored bytes are still the ones read; reads again if
    /// they are not, at most `UPDATE_ATTEMPTS` times in all.
    ///
    /// The user returned is `change` applied to a user that was stored. A
    /// change that is refused is reported as it was raised, without a
    /// write. Losing the race every time is a `Conflict`.
    pub fn update(&self, id: Vec<u8>, change: UserChange) -> (updated: Result<User, UpdateError>)
        ensures
            match updated {
                Ok(user) => exists|before: UserView|
                    spec_apply_change(before, change) == Ok::<UserView, ChangeError>(user@),
                Err(UpdateError::Rejected(e)) => exists|before: UserView|
                    spec_apply_change(before, change) == Err::<UserView, ChangeError>(e),
                Err(UpdateError::Storage(_)) => true,
            },
    {
        let tree = match self.get_tree() {
            Ok(tree) => tree,
            Err(_) => return Err(UpdateError::Storage(StorageError::Engine)),
        };
        let mut attempt: usize = 1;
        loop
            invariant
                1 <= attempt <= UPDATE_ATTEMPTS,
            decreases UPDATE_ATTEMPTS - attempt,
        {
            let stored = match fetch(&tree, id.as_slice()) {
                Ok(stored) => stored,
                Err(e) => return Err(UpdateError::Storage(e)),
            };
            let (user, bytes) = match next_user(&stored, change) {
                Ok(next) => next,
                Err(e) => return Err(e),
            };
            let swapped = swap(&tree, id.as_slice(), stored.as_ref(), bytes);
            match after_write(attempt, user, swapped) {
                Round::Done(user) => return Ok(user),
                Round::Failed(e) => return Err(e),
                Round::Again => {},
            }
            attempt += 1;
        }
    }
}

} // verus!

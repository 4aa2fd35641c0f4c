//! The stored entities and their mathematical views.

use vstd::prelude::*;

verus! {

/// One shortened-URL mapping.
#[derive(Debug, PartialEq, Eq)]
pub struct Link {
    /// Assigned by the store on creation.
    pub id: u64,
    /// The short token, as the bytes under which the link is stored.
    pub key: Vec<u8>,
    pub original_url: String,
    pub owner_id: Vec<u8>,
    /// Milliseconds since the Unix epoch.
    pub created_at: i64,
    pub updated_at: i64,
}

pub ghost struct LinkView {
    pub id: u64,
    pub key: Seq<u8>,
    pub original_url: Seq<char>,
    pub owner_id: Seq<u8>,
    pub created_at: i64,
    pub updated_at: i64,
}

impl View for Link {
    type V = LinkView;

    open spec fn view(&self) -> LinkView {
        LinkView {
            id: self.id,
            key: self.key@,
            original_url: self.original_url@,
            owner_id: self.owner_id@,
            created_at: self.created_at,
            updated_at: self.updated_at,
        }
    }
}

impl Clone for Link {
    fn clone(&self) -> (copy: Link)
        ensures
            copy@ == self@,
    {
        Link {
            id: self.id,
            key: self.key.clone(),
            original_url: self.original_url.clone(),
            owner_id: self.owner_id.clone(),
            created_at: self.created_at,
            updated_at: self.updated_at,
        }
    }
}

/// The owner of zero or more links.
#[derive(Debug, PartialEq, Eq)]
pub struct User {
    /// The identity that authentication supplied.
    pub id: Vec<u8>,
    /// Identifiers of the owner's links, oldest first.
    pub links_ids: Vec<u64>,
}

pub ghost struct UserView {
    pub id: Seq<u8>,
    pub links_ids: Seq<u64>,
}

impl View for User {
    type V = UserView;

    open spec fn view(&self) -> UserView {
        UserView { id: self.id@, links_ids: self.links_ids@ }
    }
}

impl Clone for User {
    fn clone(&self) -> (copy: User)
        ensures
            copy@ == self@,
    {
        User { id: self.id.clone(), links_ids: self.links_ids.clone() }
    }
}

impl User {
    /// A user with no links yet.
    pub fn new(id: Vec<u8>) -> (user: User)
        ensures
            user@.id == id@,
            user@.links_ids == Seq::<u64>::empty(),
    {
        User { id, links_ids: Vec::new() }
    }

    /// Whether `link_id` is among the user's links.
    pub fn owns(&self, link_id: u64) -> (found: bool)
        ensures
            found == self@.links_ids.contains(link_id),
    {
        let mut i: usize = 0;
        while i < self.links_ids.len()
            invariant
                i <= self.links_ids.len(),
                forall|j: int| 0 <= j < i ==> self.links_ids@[j] != link_id,
            decreases self.links_ids.len() - i,
        {
            if self.links_ids[i] == link_id {
                return true;
            }
            i += 1;
        }
        false
    }
}

} // verus!

use std::sync::Arc;

use short_links::engine::Store;
use short_links::error::{ChangeError, StorageError, UpdateError};
use short_links::model::{Link, User};
use short_links::outcomes::UserChange;
use short_links::repository::{
    CreateLinkDto, LinkRepository, UserRepository, LINK_REPOSITORY_TREE, UPDATE_ATTEMPTS,
    USER_REPOSITORY_TREE,
};

fn store() -> (sled::Db, Arc<Store>) {
    let db = sled::Config::new().temporary(true).open().unwrap();
    (db.clone(), Arc::new(Store { db }))
}

fn draft(url: &str) -> CreateLinkDto {
    CreateLinkDto {
        original_url: String::from(url),
        owner_id: b"U1".to_vec(),
        custom_hash: Some(String::from("tok")),
    }
}

#[test]
fn namespaces_have_their_tags() {
    assert_eq!(LINK_REPOSITORY_TREE, 'l');
    assert_eq!(USER_REPOSITORY_TREE, 'u');
    assert_eq!(UPDATE_ATTEMPTS, 8);
    let (db, store) = store();
    let links = LinkRepository::new(store.clone());
    let users = UserRepository::new(store);
    links.create_with_key(b"tok", draft("https://example.com")).unwrap();
    users.create_with_key(b"U1", User::new(b"U1".to_vec())).unwrap();
    assert!(db.open_tree("l").unwrap().contains_key(b"tok").unwrap());
    assert!(!db.open_tree("l").unwrap().contains_key(b"U1").unwrap());
    assert!(db.open_tree("u").unwrap().contains_key(b"U1").unwrap());
    assert!(!db.open_tree("u").unwrap().contains_key(b"tok").unwrap());
}

#[test]
fn link_from_draft_keeps_destination_and_owner() {
    let link = Link::from(draft("https://example.com/a"));
    assert_eq!(link.original_url, "https://example.com/a");
    assert_eq!(link.owner_id, b"U1".to_vec());
    assert_eq!(link.id, 0);
    assert_eq!(link.key, Vec::<u8>::new());
    assert!(link.created_at > 1_500_000_000_000);
    assert!(link.updated_at >= link.created_at);
}

#[test]
fn create_then_find() {
    let (_db, store) = store();
    let links = LinkRepository::new(store);
    assert_eq!(links.find_by_key(b"tok"), Ok(None));
    let made = links.create_with_key(b"tok", draft("https://example.com")).unwrap();
    assert_eq!(made.key, b"tok".to_vec());
    assert_eq!(made.original_url, "https://example.com");
    assert_eq!(made.owner_id, b"U1".to_vec());
    assert_eq!(links.find_by_key(b"tok"), Ok(Some(made)));
    assert_eq!(links.find_by_key(b"other"), Ok(None));
}

#[test]
fn second_create_is_a_conflict() {
    let (_db, store) = store();
    let links = LinkRepository::new(store.clone());
    let first = links.create_with_key(b"tok", draft("https://example.com/1")).unwrap();
    let second = links.create_with_key(b"tok", draft("https://example.com/2"));
    assert_eq!(second, Err(StorageError::Conflict));
    assert_eq!(links.find_by_key(b"tok"), Ok(Some(first)));
    let users = UserRepository::new(store);
    users.create_with_key(b"U1", User::new(b"U1".to_vec())).unwrap();
    assert_eq!(
        users.create_with_key(b"U1", User::new(b"U1".to_vec())),
        Err(StorageError::Conflict)
    );
}

#[test]
fn identifiers_are_distinct() {
    let (_db, store) = store();
    let links = LinkRepository::new(store);
    let a = links.create_with_key(b"a", draft("https://example.com")).unwrap();
    let b = links.create_with_key(b"b", draft("https://example.com")).unwrap();
    assert_ne!(a.id, b.id);
}

#[test]
fn update_appends_in_order() {
    let (_db, store) = store();
    let users = UserRepository::new(store);
    users.create_with_key(b"U1", User::new(b"U1".to_vec())).unwrap();
    let one = users.update(b"U1".to_vec(), UserChange::AppendLink(11)).unwrap();
    assert_eq!(one.links_ids, vec![11]);
    let two = users.update(b"U1".to_vec(), UserChange::AppendLink(5)).unwrap();
    assert_eq!(two.links_ids, vec![11, 5]);
    assert_eq!(users.find_by_key(b"U1"), Ok(Some(two)));
}

#[test]
fn update_refuses_duplicate_without_writing() {
    let (_db, store) = store();
    let users = UserRepository::new(store);
    users.create_with_key(b"U1", User { id: b"U1".to_vec(), links_ids: vec![11] }).unwrap();
    assert_eq!(
        users.update(b"U1".to_vec(), UserChange::AppendLink(11)),
        Err(UpdateError::Rejected(ChangeError::DuplicateLink))
    );
    assert_eq!(users.find_by_key(b"U1").unwrap().unwrap().links_ids, vec![11]);
}

#[test]
fn update_of_missing_user_is_not_found() {
    let (_db, store) = store();
    let users = UserRepository::new(store);
    assert_eq!(
        users.update(b"nobody".to_vec(), UserChange::AppendLink(1)),
        Err(UpdateError::Storage(StorageError::NotFound))
    );
    assert_eq!(users.find_by_key(b"nobody"), Ok(None));
}

#[test]
fn undecodable_bytes_are_codec_errors() {
    let (db, store) = store();
    db.open_tree("u").unwrap().insert(b"U1", vec![9u8; 3]).unwrap();
    db.open_tree("l").unwrap().insert(b"tok", vec![9u8; 3]).unwrap();
    let users = UserRepository::new(store.clone());
    let links = LinkRepository::new(store);
    assert_eq!(users.find_by_key(b"U1"), Err(StorageError::Codec));
    assert_eq!(links.find_by_key(b"tok"), Err(StorageError::Codec));
    assert_eq!(
        users.update(b"U1".to_vec(), UserChange::AppendLink(1)),
        Err(UpdateError::Storage(StorageError::Codec))
    );
}

#[test]
fn user_owns_its_links() {
    let user = User { id: b"U1".to_vec(), links_ids: vec![3, 4] };
    assert!(user.owns(3));
    assert!(user.owns(4));
    assert!(!user.owns(5));
    assert!(!User::new(b"U1".to_vec()).owns(0));
    assert_eq!(user.clone(), user);
}

#[test]
fn stamped_link_carries_both_times() {
    let link = Link::stamped(draft("https://example.com/a"), 5, 9);
    assert_eq!(link.created_at, 5);
    assert_eq!(link.updated_at, 9);
    assert_eq!(link.original_url, "https://example.com/a");
    assert_eq!(link.owner_id, b"U1".to_vec());
    assert_eq!(link.id, 0);
    assert_eq!(link.key, Vec::<u8>::new());
}

#[test]
fn token_of_the_draft_is_not_taken_over() {
    let with = draft("https://example.com");
    let without = CreateLinkDto {
        original_url: String::from("https://example.com"),
        owner_id: b"U1".to_vec(),
        custom_hash: None,
    };
    assert_eq!(Link::stamped(with, -1, 2), Link::stamped(without, -1, 2));
}

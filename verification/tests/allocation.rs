use std::sync::Arc;

use short_links::engine::Store;
use short_links::error::{LinkAllocationError, StorageError};
use short_links::link_create::{
    allocate, allocate_link, persist, LinkCreate, LinkCreateInput, LinkErrorCode, Repositories,
    ALLOCATION_ATTEMPTS, TOKEN_LENGTH,
};
use short_links::model::User;
use short_links::repository::{LinkRepository, UserRepository};

fn open() -> (sled::Db, Repositories) {
    let db = sled::Config::new().temporary(true).open().unwrap();
    let store = Arc::new(Store { db: db.clone() });
    let repositories =
        Repositories { link: LinkRepository::new(store.clone()), user: UserRepository::new(store) };
    (db, repositories)
}

fn with_user(id: &[u8]) -> (sled::Db, Repositories) {
    let (db, repositories) = open();
    repositories.user.create_with_key(id, User::new(id.to_vec())).unwrap();
    (db, repositories)
}

#[test]
fn generated_token_succeeds() {
    let (_db, repositories) = with_user(b"U1");
    let link = allocate_link(
        &repositories,
        Some(b"U1".to_vec()),
        String::from("https://example.com"),
        None,
    )
    .unwrap();
    assert_eq!(link.key.len(), 16);
    assert_eq!(TOKEN_LENGTH, 16);
    assert!(link.key.iter().all(|b| b.is_ascii_alphanumeric()));
    assert_eq!(link.original_url, "https://example.com");
    assert_eq!(link.owner_id, b"U1".to_vec());
    let owner = repositories.user.find_by_key(b"U1").unwrap().unwrap();
    assert_eq!(owner.links_ids, vec![link.id]);
}

#[test]
fn invalid_url_changes_nothing() {
    let (db, repositories) = with_user(b"U1");
    let result =
        allocate_link(&repositories, Some(b"U1".to_vec()), String::from("not a url"), None);
    assert_eq!(result, Err(LinkAllocationError::InvalidUrl));
    assert_eq!(db.open_tree("l").unwrap().len(), 0);
    let owner = repositories.user.find_by_key(b"U1").unwrap().unwrap();
    assert_eq!(owner.links_ids, Vec::<u64>::new());
}

#[test]
fn custom_token_is_given_once() {
    let (_db, repositories) = with_user(b"U1");
    let first = allocate_link(
        &repositories,
        Some(b"U1".to_vec()),
        String::from("https://example.com"),
        Some(String::from("promo")),
    );
    let second = allocate_link(
        &repositories,
        Some(b"U1".to_vec()),
        String::from("https://example.com"),
        Some(String::from("promo")),
    );
    let link = first.unwrap();
    assert_eq!(link.key, b"promo".to_vec());
    assert_eq!(second, Err(LinkAllocationError::CustomTokenUsed));
    let owner = repositories.user.find_by_key(b"U1").unwrap().unwrap();
    assert_eq!(owner.links_ids, vec![link.id]);
}

#[test]
fn no_identity_is_unauthorized() {
    let (db, repositories) = open();
    let result = allocate_link(&repositories, None, String::from("https://example.com"), None);
    assert_eq!(result, Err(LinkAllocationError::Unauthorized));
    assert_eq!(db.open_tree("l").unwrap().len(), 0);
}

#[test]
fn blank_token_is_invalid() {
    let (db, repositories) = with_user(b"U1");
    let result = allocate_link(
        &repositories,
        Some(b"U1".to_vec()),
        String::from("https://example.com"),
        Some(String::from("   ")),
    );
    assert_eq!(result, Err(LinkAllocationError::CustomTokenInvalid));
    let empty = allocate_link(
        &repositories,
        Some(b"U1".to_vec()),
        String::from("https://example.com"),
        Some(String::new()),
    );
    assert_eq!(empty, Err(LinkAllocationError::CustomTokenInvalid));
    assert_eq!(db.open_tree("l").unwrap().len(), 0);
}

#[test]
fn checks_come_in_order() {
    let (_db, repositories) = open();
    let result = allocate_link(&repositories, None, String::from("not a url"), Some(String::new()));
    assert_eq!(result, Err(LinkAllocationError::Unauthorized));
    let result = allocate_link(
        &repositories,
        Some(b"U1".to_vec()),
        String::from("not a url"),
        Some(String::new()),
    );
    assert_eq!(result, Err(LinkAllocationError::InvalidUrl));
}

#[test]
fn relative_url_is_invalid() {
    let (_db, repositories) = with_user(b"U1");
    let result =
        allocate_link(&repositories, Some(b"U1".to_vec()), String::from("/just/a/path"), None);
    assert_eq!(result, Err(LinkAllocationError::InvalidUrl));
}

#[test]
fn found_link_is_in_owners_list() {
    let (_db, repositories) = with_user(b"U1");
    let earlier = allocate_link(
        &repositories,
        Some(b"U1".to_vec()),
        String::from("https://example.org/a"),
        None,
    )
    .unwrap();
    let (link, owner) = allocate(
        &repositories,
        Some(b"U1".to_vec()),
        String::from("https://example.org/b"),
        Some(String::from("bee")),
    )
    .unwrap();
    let found = repositories.link.find_by_key(b"bee").unwrap().unwrap();
    assert_eq!(found, link);
    assert_eq!(found.original_url, "https://example.org/b");
    let stored_owner = repositories.user.find_by_key(b"U1").unwrap().unwrap();
    assert_eq!(stored_owner, owner);
    assert!(stored_owner.owns(found.id));
    assert_eq!(stored_owner.links_ids, vec![earlier.id, link.id]);
    assert_ne!(earlier.id, link.id);
}

#[test]
fn missing_owner_record_is_reported_with_the_link() {
    let (_db, repositories) = open();
    let result = allocate_link(
        &repositories,
        Some(b"ghost".to_vec()),
        String::from("https://example.com"),
        Some(String::from("orphan")),
    );
    let stored = repositories.link.find_by_key(b"orphan").unwrap().unwrap();
    assert_eq!(result, Err(LinkAllocationError::OwnerUpdateFailed { link_id: stored.id }));
    assert_eq!(stored.owner_id, b"ghost".to_vec());
}

#[test]
fn undecodable_link_is_a_codec_error() {
    let (db, repositories) = with_user(b"U1");
    db.open_tree("l").unwrap().insert(b"junk", vec![1u8, 2, 3]).unwrap();
    let result = allocate_link(
        &repositories,
        Some(b"U1".to_vec()),
        String::from("https://example.com"),
        Some(String::from("junk")),
    );
    assert_eq!(result, Err(LinkAllocationError::Storage(StorageError::Codec)));
}

#[test]
fn persist_stores_under_the_callers_token() {
    let (_db, repositories) = open();
    let owner = b"U1".to_vec();
    let url = String::from("https://example.com/x");
    let token = Some(String::from("mine"));
    let link = persist(&repositories.link, &owner, &url, &token).unwrap();
    assert_eq!(link.key, b"mine".to_vec());
    let again = persist(&repositories.link, &owner, &url, &token);
    assert_eq!(again, Err(LinkAllocationError::CustomTokenUsed));
    assert_eq!(ALLOCATION_ATTEMPTS, 8);
}

#[test]
fn generated_tokens_differ() {
    let (_db, repositories) = with_user(b"U1");
    let a = allocate_link(&repositories, Some(b"U1".to_vec()), String::from("https://a.example"), None)
        .unwrap();
    let b = allocate_link(&repositories, Some(b"U1".to_vec()), String::from("https://b.example"), None)
        .unwrap();
    assert_ne!(a.key, b.key);
    assert_ne!(a.id, b.id);
    assert!(a.created_at > 1_500_000_000_000);
    assert!(a.updated_at >= a.created_at);
}

#[test]
fn exec_reports_link_or_error() {
    let (_db, repositories) = with_user(b"U1");
    let answer = LinkCreate::exec(
        &repositories,
        Some(b"U1".to_vec()),
        LinkCreateInput { url: String::from("https://example.com"), custom_hash: None },
    );
    assert!(answer.error.is_none());
    assert_eq!(answer.link.unwrap().original_url, "https://example.com");

    let answer = LinkCreate::exec(
        &repositories,
        None,
        LinkCreateInput { url: String::from("https://example.com"), custom_hash: None },
    );
    assert!(answer.link.is_none());
    let error = answer.error.unwrap();
    assert_eq!(error.code, LinkErrorCode::Unauthorized);
    assert_eq!(error.message, "You must create a token using token create");

    let answer = LinkCreate::exec(
        &repositories,
        Some(b"U1".to_vec()),
        LinkCreateInput { url: String::from("nope"), custom_hash: None },
    );
    let error = answer.error.unwrap();
    assert_eq!(error.code, LinkErrorCode::InvalidUrl);
    assert_eq!(error.message, "relative URL without a base");

    let taken = LinkCreateInput {
        url: String::from("https://example.com"),
        custom_hash: Some(String::from("promo")),
    };
    let answer = LinkCreate::exec(&repositories, Some(b"U1".to_vec()), taken);
    assert_eq!(answer.link.unwrap().key, b"promo".to_vec());
    let taken = LinkCreateInput {
        url: String::from("https://example.com"),
        custom_hash: Some(String::from("promo")),
    };
    let answer = LinkCreate::exec(&repositories, Some(b"U1".to_vec()), taken);
    let error = answer.error.unwrap();
    assert_eq!(error.code, LinkErrorCode::CustomHashUsed);
    assert_eq!(error.message, "Link with hash \"promo\" already exists");

    let answer = LinkCreate::exec(
        &repositories,
        Some(b"U1".to_vec()),
        LinkCreateInput {
            url: String::from("https://example.com"),
            custom_hash: Some(String::from(" \t ")),
        },
    );
    let error = answer.error.unwrap();
    assert_eq!(error.code, LinkErrorCode::CustomHashInvalid);
    assert_eq!(error.message, "The custom hash cannot be empty");
}

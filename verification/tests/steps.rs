use short_links::error::{ChangeError, LinkAllocationError, StorageError, UpdateError};
use short_links::link_create::{
    after_create, after_owner_update, availability, code, message, token_of, validate,
    LinkCreate,
    LinkErrorCode, Step, ALLOCATION_ATTEMPTS,
};
use short_links::model::{Link, User};
use short_links::outcomes::{
    apply_change, created, found, next_user, reported, UserChange,
};
use short_links::codec::{encode_link, encode_user};
use short_links::text::{is_blank, white_space};

fn link(id: u64) -> Link {
    Link {
        id,
        key: b"k".to_vec(),
        original_url: String::from("https://example.com"),
        owner_id: b"U1".to_vec(),
        created_at: 10,
        updated_at: 10,
    }
}

fn is_retry(step: &Step) -> bool {
    matches!(step, Step::Retry)
}

fn failed_with(step: &Step, e: LinkAllocationError) -> bool {
    match step {
        Step::Failed(found) => *found == e,
        _ => false,
    }
}

#[test]
fn collisions_retry_until_the_limit() {
    for attempt in 1..ALLOCATION_ATTEMPTS {
        assert!(is_retry(&after_create(false, attempt, Err(StorageError::Conflict))));
    }
    assert!(failed_with(
        &after_create(false, ALLOCATION_ATTEMPTS, Err(StorageError::Conflict)),
        LinkAllocationError::AllocationExhausted
    ));
    assert!(failed_with(
        &after_create(false, ALLOCATION_ATTEMPTS + 1, Err(StorageError::Conflict)),
        LinkAllocationError::AllocationExhausted
    ));
}

#[test]
fn success_after_collisions_gives_the_link() {
    let mut attempt = 1;
    let mut answers = vec![Err(StorageError::Conflict), Err(StorageError::Conflict), Ok(link(7))];
    answers.reverse();
    loop {
        match after_create(false, attempt, answers.pop().unwrap()) {
            Step::Retry => attempt += 1,
            Step::Done(found) => {
                assert_eq!(found, link(7));
                break;
            }
            Step::Failed(e) => panic!("{:?}", e),
        }
    }
    assert_eq!(attempt, 3);
}

#[test]
fn custom_token_never_retries() {
    assert!(failed_with(
        &after_create(true, 1, Err(StorageError::Conflict)),
        LinkAllocationError::CustomTokenUsed
    ));
    assert!(failed_with(
        &after_create(true, 1, Err(StorageError::Engine)),
        LinkAllocationError::Storage(StorageError::Engine)
    ));
    assert!(failed_with(
        &after_create(false, 1, Err(StorageError::Codec)),
        LinkAllocationError::Storage(StorageError::Codec)
    ));
    match after_create(true, 1, Ok(link(3))) {
        Step::Done(found) => assert_eq!(found, link(3)),
        other => panic!("{:?}", other),
    }
}

#[test]
fn validate_reports_first_failed_check() {
    let blank = Some(String::from(" \n"));
    let token = Some(String::from(" a "));
    assert_eq!(validate(false, false, &blank), Err(LinkAllocationError::Unauthorized));
    assert_eq!(validate(true, false, &blank), Err(LinkAllocationError::InvalidUrl));
    assert_eq!(validate(true, true, &blank), Err(LinkAllocationError::CustomTokenInvalid));
    assert_eq!(validate(true, true, &token), Ok(()));
    assert_eq!(validate(true, true, &None), Ok(()));
    assert_eq!(validate(false, true, &None), Err(LinkAllocationError::Unauthorized));
}

#[test]
fn availability_of_each_lookup() {
    assert_eq!(availability(&Ok(None)), Ok(()));
    assert_eq!(availability(&Ok(Some(link(1)))), Err(LinkAllocationError::CustomTokenUsed));
    assert_eq!(
        availability(&Err(StorageError::Codec)),
        Err(LinkAllocationError::Storage(StorageError::Codec))
    );
}

#[test]
fn owner_update_decides_the_result() {
    let owner = User { id: b"U1".to_vec(), links_ids: vec![4] };
    assert_eq!(after_owner_update(link(4), Ok(owner.clone())), Ok((link(4), owner)));
    assert_eq!(
        after_owner_update(link(4), Err(UpdateError::Storage(StorageError::Conflict))),
        Err(LinkAllocationError::OwnerUpdateFailed { link_id: 4 })
    );
    assert_eq!(
        after_owner_update(link(9), Err(UpdateError::Rejected(ChangeError::DuplicateLink))),
        Err(LinkAllocationError::OwnerUpdateFailed { link_id: 9 })
    );
}

#[test]
fn append_keeps_order_and_refuses_duplicates() {
    let user = User { id: b"U1".to_vec(), links_ids: vec![1, 2] };
    let next = apply_change(user.clone(), UserChange::AppendLink(3)).unwrap();
    assert_eq!(next.links_ids, vec![1, 2, 3]);
    assert_eq!(next.id, b"U1".to_vec());
    assert_eq!(apply_change(user, UserChange::AppendLink(2)), Err(ChangeError::DuplicateLink));
}

#[test]
fn next_user_for_each_answer() {
    let change = UserChange::AppendLink(8);
    assert_eq!(next_user(&None, change), Err(UpdateError::Storage(StorageError::NotFound)));
    assert_eq!(
        next_user(&Some(vec![1, 2, 3]), change),
        Err(UpdateError::Storage(StorageError::Codec))
    );
    let has = User { id: b"U1".to_vec(), links_ids: vec![8] };
    assert_eq!(
        next_user(&Some(encode_user(&has)), change),
        Err(UpdateError::Rejected(ChangeError::DuplicateLink))
    );
    let fresh = User::new(b"U1".to_vec());
    let (user, bytes) = next_user(&Some(encode_user(&fresh)), change).unwrap();
    assert_eq!(user, has);
    assert_eq!(bytes, encode_user(&has));
}

#[test]
fn lookups_decode_what_is_stored() {
    assert_eq!(found::<Link>(None), Ok(None));
    assert_eq!(found::<Link>(Some(encode_link(&link(2)))), Ok(Some(link(2))));
    assert_eq!(found::<Link>(Some(vec![0; 47])), Err(StorageError::Codec));
    let user = User { id: b"U1".to_vec(), links_ids: vec![2] };
    assert_eq!(found::<User>(None), Ok(None));
    assert_eq!(found::<User>(Some(encode_user(&user))), Ok(Some(user)));
    assert_eq!(found::<User>(Some(vec![0; 15])), Err(StorageError::Codec));
}

#[test]
fn created_follows_the_swap() {
    assert_eq!(created(link(1), true), Ok(link(1)));
    assert_eq!(created(link(1), false), Err(StorageError::Conflict));
}

#[test]
fn codes_and_messages() {
    assert_eq!(code(LinkAllocationError::Unauthorized), LinkErrorCode::Unauthorized);
    assert_eq!(code(LinkAllocationError::InvalidUrl), LinkErrorCode::InvalidUrl);
    assert_eq!(code(LinkAllocationError::CustomTokenInvalid), LinkErrorCode::CustomHashInvalid);
    assert_eq!(code(LinkAllocationError::CustomTokenUsed), LinkErrorCode::CustomHashUsed);
    assert_eq!(code(LinkAllocationError::AllocationExhausted), LinkErrorCode::AllocationExhausted);
    assert_eq!(code(LinkAllocationError::Storage(StorageError::Engine)), LinkErrorCode::Storage);
    assert_eq!(
        code(LinkAllocationError::OwnerUpdateFailed { link_id: 1 }),
        LinkErrorCode::OwnerUpdateFailed
    );
    let token = Some(String::from("promo"));
    assert_eq!(
        message(LinkAllocationError::CustomTokenUsed, None, &token),
        "Link with hash \"promo\" already exists"
    );
    assert_eq!(
        message(LinkAllocationError::InvalidUrl, Some(String::from("empty host")), &None),
        "empty host"
    );
    assert_eq!(message(LinkAllocationError::AllocationExhausted, None, &None), "No free hash was found");
    let answer = LinkCreate::report(Err(LinkAllocationError::CustomTokenUsed), None, &token);
    assert!(answer.link.is_none());
    let error = answer.error.unwrap();
    assert_eq!(error.code, LinkErrorCode::CustomHashUsed);
    assert_eq!(error.message, "Link with hash \"promo\" already exists");
    let answer = LinkCreate::report(Ok(link(5)), None, &None);
    assert!(answer.error.is_none());
    assert_eq!(answer.link, Some(link(5)));
}

#[test]
fn white_space_is_what_trimming_removes() {
    let mut n: u32 = 0;
    while n <= 0x10FFFF {
        if let Some(c) = char::from_u32(n) {
            assert_eq!(white_space(c), c.is_whitespace(), "{:x}", n);
        }
        n += 1;
    }
}

#[test]
fn blank_texts() {
    assert!(is_blank(""));
    assert!(is_blank("   "));
    assert!(is_blank(" \t\r\n\u{3000}"));
    assert!(!is_blank(" a "));
    assert!(!is_blank("promo"));
    assert!(!is_blank("\u{200B}"));
}

#[test]
fn generated_token_shape() {
    let a = LinkCreate::create_hash();
    let b = LinkCreate::create_hash();
    assert_eq!(a.chars().count(), 16);
    assert_eq!(a.len(), 16);
    assert!(a.chars().all(|c| c.is_ascii_alphanumeric()));
    assert!(b.chars().all(|c| c.is_ascii_alphanumeric()));
    assert_ne!(a, b);
}

#[test]
fn engine_failures_are_reported_as_engine() {
    assert_eq!(reported(Ok::<u8, sled::Error>(3)), Ok(3));
    assert_eq!(reported(Ok::<Option<Vec<u8>>, sled::Error>(Some(vec![1, 2]))), Ok(Some(vec![1, 2])));
    assert_eq!(
        reported::<bool>(Err(sled::Error::Unsupported(String::from("read-only")))),
        Err(StorageError::Engine)
    );
    assert_eq!(
        reported::<u8>(Err(sled::Error::ReportableBug(String::from("bug")))),
        Err(StorageError::Engine)
    );
}

#[test]
fn token_is_the_samples_in_draw_order() {
    assert_eq!(token_of(&b"a1B2c3D4e5F6g7H8".to_vec()), "a1B2c3D4e5F6g7H8");
    assert_eq!(token_of(&b"AAAAAAAAAAAAAAAB".to_vec()), "AAAAAAAAAAAAAAAB");
    assert_eq!(token_of(&vec![b'z', b'0']), "z0");
    assert_eq!(token_of(&Vec::new()), "");
    assert_eq!(token_of(&vec![0xE9]), "\u{e9}");
}

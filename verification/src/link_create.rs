//! Allocating a short link: check the request, settle on a token, store
//! the link under it, and put the link's identifier into its owner's list.

use rand::Rng;
use vstd::prelude::*;
use vstd::string::*;
use vstd::utf8::*;
use crate::error::{ChangeError, LinkAllocationError, StorageError, UpdateError};
use crate::model::{Link, LinkView, User, UserView};
use crate::outcomes::{lookup_view, spec_apply_change, UserChange};
use crate::repository::{CreateLinkDto, LinkRepository, UserRepository};
use crate::text::{is_blank, push_char, spec_is_blank};

verus! {

/// How many characters a generated token has.
pub const TOKEN_LENGTH: usize = 16;

/// How many generated tokens are tried before the allocation gives up.
pub const ALLOCATION_ATTEMPTS: usize = 8;

/// The repositories that an allocation works on.
pub struct Repositories {
    pub link: LinkRepository,
    pub user: UserRepository,
}

#[derive(Debug, Default)]
pub struct LinkCreateInput {
    pub url: String,
    pub custom_hash: Option<String>,
}

#[derive(Clone, Copy, Debug, PartialEq, Eq, Structural)]
pub enum LinkErrorCode {
    Unauthorized,
    InvalidUrl,
    CustomHashInvalid,
    CustomHashUsed,
    AllocationExhausted,
    Storage,
    OwnerUpdateFailed,
}

#[derive(Debug)]
pub struct LinkError {
    pub code: LinkErrorCode,
    pub message: String,
}

/// What a caller gets back: the link, or the error, never both.
#[derive(Debug, Default)]
pub struct LinkCreate {
    pub link: Option<Link>,
    pub error: Option<LinkError>,
}

/// Whether `url::Url::parse` accepts the text as an absolute URL.
pub uninterp spec fn url_parses(url: Seq<char>) -> bool;

/// `url::Url::parse`: nothing where the text parses as an absolute URL,
/// else the parser's complaint in words.
#[verifier::external_body]
fn url_complaint(url: &str) -> (complaint: Option<String>)
    ensures
        complaint is None == url_parses(url@),
{
    match url::Url::parse(url) {
        Ok(_) => None,
        Err(e) => Some(e.to_string()),
    }
}

/// An ASCII digit or letter.
pub open spec fn is_alphanumeric(c: char) -> bool {
    ||| '0' <= c <= '9'
    ||| 'A' <= c <= 'Z'
    ||| 'a' <= c <= 'z'
}

/// `rand`'s `Alphanumeric` distribution, sampled once from the thread's
/// generator: one of the 62 ASCII digits and letters.
#[verifier::external_body]
fn sample_alphanumeric() -> (byte: u8)
    ensures
        is_alphanumeric(byte as char),
{
    rand::thread_rng().sample(rand::distributions::Alphanumeric)
}

/// The token that drawn samples spell: each sample as a character, in
/// the order in which they were drawn.
pub open spec fn spec_token(samples: Seq<u8>) -> Seq<char> {
    Seq::new(samples.len(), |i: int| samples[i] as char)
}

pub fn token_of(samples: &Vec<u8>) -> (token: String)
    ensures
        token@ == spec_token(samples@),
{
    let mut token = String::new();
    let mut i: usize = 0;
    while i < samples.len()
        invariant
            i <= samples@.len(),
            token@ == spec_token(samples@.take(i as int)),
        decreases samples@.len() - i,
    {
        push_char(&mut token, samples[i] as char);
        assert(token@ =~= spec_token(samples@.take(i + 1)));
        i += 1;
    }
    assert(samples@.take(i as int) =~= samples@);
    token
}

/// A generated token: `TOKEN_LENGTH` ASCII digits and letters.
pub open spec fn is_token(token: Seq<char>) -> bool {
    &&& token.len() == TOKEN_LENGTH
    &&& forall|i: int| 0 <= i < token.len() ==> is_alphanumeric(#[trigger] token[i])
}

/// The key of a generated token: `TOKEN_LENGTH` bytes, each an ASCII digit
/// or letter.
pub open spec fn is_token_key(key: Seq<u8>) -> bool {
    &&& key.len() == TOKEN_LENGTH
    &&& forall|i: int| 0 <= i < key.len() ==> is_alphanumeric(#[trigger] key[i] as char)
}

/// A generated token is stored under as many bytes as it has characters,
/// the same digits and letters.
pub proof fn lemma_token_key(token: Seq<char>)
    requires
        is_token(token),
    ensures
        is_token_key(encode_utf8(token)),
{
    assert(is_ascii_chars(token)) by {
        assert forall|i: int| 0 <= i < token.len() implies '\0' <= #[trigger] token[i]
            <= '\u{7f}' by {
            assert(is_alphanumeric(token[i]));
        }
    }
    is_ascii_chars_encode_utf8(token);
    let key = encode_utf8(token);
    assert forall|i: int| 0 <= i < key.len() implies is_alphanumeric(#[trigger] key[i] as char) by {
        assert(is_alphanumeric(token[i]));
        assert(token[i] as u8 == key[i]);
    }
}

/// The caller's token, if any, as characters.
pub open spec fn token_view(custom_token: Option<String>) -> Option<Seq<char>> {
    match custom_token {
        Some(token) => Some(token@),
        None => None,
    }
}

/// The first check that a request fails, in the order identity, URL,
/// token; or nothing where it passes them all.
pub open spec fn spec_validate(
    has_identity: bool,
    url_ok: bool,
    custom_token: Option<Seq<char>>,
) -> Result<(), LinkAllocationError> {
    if !has_identity {
        Err(LinkAllocationError::Unauthorized)
    } else if !url_ok {
        Err(LinkAllocationError::InvalidUrl)
    } else if custom_token is Some && spec_is_blank(custom_token.unwrap()) {
        Err(LinkAllocationError::CustomTokenInvalid)
    } else {
        Ok(())
    }
}

pub fn validate(has_identity: bool, url_ok: bool, custom_token: &Option<String>) -> (checked:
    Result<(), LinkAllocationError>)
    ensures
        checked == spec_validate(has_identity, url_ok, token_view(*custom_token)),
{
    if !has_identity {
        return Err(LinkAllocationError::Unauthorized);
    }
    if !url_ok {
        return Err(LinkAllocationError::InvalidUrl);
    }
    match custom_token {
        Some(token) => {
            if is_blank(token.as_str()) {
                Err(LinkAllocationError::CustomTokenInvalid)
            } else {
                Ok(())
            }
        },
        None => Ok(()),
    }
}

/// What the lookup of a caller's token means for the allocation: a link
/// found is a taken token, a failed lookup is reported, and only a free
/// token lets the allocation go on.
pub open spec fn spec_availability(found: Result<Option<LinkView>, StorageError>) -> Result<
    (),
    LinkAllocationError,
> {
    match found {
        Ok(None) => Ok(()),
        Ok(Some(_)) => Err(LinkAllocationError::CustomTokenUsed),
        Err(e) => Err(LinkAllocationError::Storage(e)),
    }
}

pub fn availability(found: &Result<Option<Link>, StorageError>) -> (free: Result<
    (),
    LinkAllocationError,
>)
    ensures
        free == spec_availability(lookup_view(*found)),
{
    match found {
        Ok(None) => Ok(()),
        Ok(Some(_)) => Err(LinkAllocationError::CustomTokenUsed),
        Err(e) => Err(LinkAllocationError::Storage(*e)),
    }
}

/// Where the allocation stands after one attempt to store the link.
#[derive(Debug)]
pub enum Step {
    /// The link is stored.
    Done(Link),
    /// The generated token was taken; draw another.
    Retry,
    /// The allocation ends without a link.
    Failed(LinkAllocationError),
}

/// The step after the `attempt`-th create, counted from one. A taken key
/// ends the allocation for a caller's token; for a generated token it asks
/// for another draw while attempts are left, and ends it when none is.
pub open spec fn spec_after_create(
    custom: bool,
    attempt: nat,
    made: Result<Link, StorageError>,
) -> Step {
    match made {
        Ok(link) => Step::Done(link),
        Err(StorageError::Conflict) => if custom {
            Step::Failed(LinkAllocationError::CustomTokenUsed)
        } else if attempt < ALLOCATION_ATTEMPTS {
            Step::Retry
        } else {
            Step::Failed(LinkAllocationError::AllocationExhausted)
        },
        Err(e) => Step::Failed(LinkAllocationError::Storage(e)),
    }
}

pub fn after_create(custom: bool, attempt: usize, made: Result<Link, StorageError>) -> (step:
    Step)
    ensures
        step == spec_after_create(custom, attempt as nat, made),
{
    match made {
        Ok(link) => Step::Done(link),
        Err(StorageError::Conflict) => {
            if custom {
                Step::Failed(LinkAllocationError::CustomTokenUsed)
            } else if attempt < ALLOCATION_ATTEMPTS {
                Step::Retry
            } else {
                Step::Failed(LinkAllocationError::AllocationExhausted)
            }
        },
        Err(e) => Step::Failed(LinkAllocationError::Storage(e)),
    }
}

/// Where the allocation stands after the creates answered `answers`, one
/// after the other, `before` earlier attempts having asked for another
/// draw. `Retry` says that the next answer is still awaited.
pub open spec fn spec_persist(
    custom: bool,
    answers: Seq<Result<Link, StorageError>>,
    before: nat,
) -> Step
    decreases answers.len(),
{
    if answers.len() == 0 {
        Step::Retry
    } else {
        match spec_after_create(custom, before + 1, answers.first()) {
            Step::Retry => spec_persist(custom, answers.drop_first(), before + 1),
            ended => ended,
        }
    }
}

/// While another answer is awaited, the next answer decides as the step
/// function says for its attempt.
pub proof fn lemma_next_answer(
    custom: bool,
    answers: Seq<Result<Link, StorageError>>,
    answer: Result<Link, StorageError>,
    before: nat,
)
    requires
        spec_persist(custom, answers, before) == Step::Retry,
    ensures
        spec_persist(custom, answers.push(answer), before) == spec_after_create(
            custom,
            before + answers.len() + 1,
            answer,
        ),
    decreases answers.len(),
{
    let longer = answers.push(answer);
    if answers.len() == 0 {
        assert(longer.drop_first() =~= answers);
        assert(longer.first() == answer);
        assert(spec_persist(custom, answers, before + 1) == Step::Retry);
    } else {
        let rest = answers.drop_first();
        assert(longer.drop_first() =~= rest.push(answer));
        assert(longer.first() == answers.first());
        assert(spec_after_create(custom, before + 1, answers.first()) == Step::Retry);
        assert(spec_persist(custom, rest, before + 1) == Step::Retry);
        lemma_next_answer(custom, rest, answer, before + 1);
        assert(spec_persist(custom, longer, before) == spec_persist(
            custom,
            rest.push(answer),
            before + 1,
        ));
    }
}

/// An allocation's result as the step that ended it.
pub open spec fn spec_ended(stored: Result<Link, LinkAllocationError>) -> Step {
    match stored {
        Ok(link) => Step::Done(link),
        Err(e) => Step::Failed(e),
    }
}

/// The allocation's result once the owner's update has answered: the link
/// and the owner's new record where the update went through, else the
/// report of a link that is stored without its owner knowing of it.
pub fn after_owner_update(link: Link, updated: Result<User, UpdateError>) -> (ended: Result<
    (Link, User),
    LinkAllocationError,
>)
    ensures
        match updated {
            Ok(user) => ended == Ok::<(Link, User), LinkAllocationError>((link, user)),
            Err(_) => ended == Err::<(Link, User), LinkAllocationError>(
                LinkAllocationError::OwnerUpdateFailed { link_id: link.id },
            ),
        },
{
    match updated {
        Ok(user) => Ok((link, user)),
        Err(_) => Err(LinkAllocationError::OwnerUpdateFailed { link_id: link.id }),
    }
}

/// What holds of a link that an allocation hands out.
pub open spec fn allocated(
    link: Link,
    owner: Seq<u8>,
    url: Seq<char>,
    custom_token: Option<Seq<char>>,
) -> bool {
    &&& link@.original_url == url
    &&& link@.owner_id == owner
    &&& match custom_token {
        Some(token) => link@.key == encode_utf8(token),
        None => is_token_key(link@.key),
    }
}

/// Which errors can end an allocation whose request was in order.
pub open spec fn may_fail_with(e: LinkAllocationError, custom: bool) -> bool {
    match e {
        LinkAllocationError::Unauthorized => false,
        LinkAllocationError::InvalidUrl => false,
        LinkAllocationError::CustomTokenInvalid => false,
        LinkAllocationError::CustomTokenUsed => custom,
        LinkAllocationError::AllocationExhausted => !custom,
        LinkAllocationError::Storage(cause) => cause != StorageError::Conflict && cause
            != StorageError::NotFound,
        LinkAllocationError::OwnerUpdateFailed { .. } => true,
    }
}

/// Which codes can stand in the answer to a request that was in order.
pub open spec fn may_fail_with_code(code: LinkErrorCode, custom: bool) -> bool {
    match code {
        LinkErrorCode::Unauthorized => false,
        LinkErrorCode::InvalidUrl => false,
        LinkErrorCode::CustomHashInvalid => false,
        LinkErrorCode::CustomHashUsed => custom,
        LinkErrorCode::AllocationExhausted => !custom,
        LinkErrorCode::Storage => true,
        LinkErrorCode::OwnerUpdateFailed => true,
    }
}

/// Stores the link under the caller's token, or under generated tokens
/// until one is free or `ALLOCATION_ATTEMPTS` of them were taken.
///
/// The result is the step that ends the sequence of the creates' answers,
/// at most `ALLOCATION_ATTEMPTS` of them. A link that comes back has this
/// owner, this destination, and the caller's token or a generated one.
pub fn persist(
    links: &LinkRepository,
    owner: &Vec<u8>,
    url: &String,
    custom_token: &Option<String>,
) -> (stored: Result<Link, LinkAllocationError>)
    ensures
        exists|answers: Seq<Result<Link, StorageError>>|
            1 <= answers.len() <= ALLOCATION_ATTEMPTS && #[trigger] spec_persist(
                custom_token is Some,
                answers,
                0,
            ) == spec_ended(stored),
        match stored {
            Ok(link) => allocated(link, owner@, url@, token_view(*custom_token)),
            Err(e) => may_fail_with(e, custom_token is Some) && !(e is OwnerUpdateFailed),
        },
{
    let mut attempt: usize = 1;
    let ghost mut answers: Seq<Result<Link, StorageError>> = Seq::empty();
    loop
        invariant
            1 <= attempt <= ALLOCATION_ATTEMPTS,
            answers.len() == attempt - 1,
            spec_persist(custom_token is Some, answers, 0) == Step::Retry,
        decreases ALLOCATION_ATTEMPTS - attempt,
    {
        let token = match custom_token {
            Some(token) => token.clone(),
            None => LinkCreate::create_hash(),
        };
        let draft = CreateLinkDto {
            original_url: url.clone(),
            owner_id: owner.clone(),
            custom_hash: Some(token.clone()),
        };
        let made = links.create_with_key(token.as_str().as_bytes(), draft);
        proof {
            if custom_token is None {
                lemma_token_key(token@);
            }
            lemma_next_answer(custom_token is Some, answers, made, 0);
            answers = answers.push(made);
        }
        match after_create(custom_token.is_some(), attempt, made) {
            Step::Done(link) => {
                return Ok(link);
            },
            Step::Failed(e) => {
                return Err(e);
            },
            Step::Retry => {},
        }
        attempt += 1;
    }
}

/// Allocates a short link to `url` for the caller, and hands it out with
/// the owner's record as the store took it.
///
/// A request without identity, with a URL that does not parse, or with a
/// blank token is refused with the error of the first of these checks
/// that it fails, before anything is looked up or stored. Past them, the
/// engine's answers decide: a link that comes back has the caller as its
/// owner, `url` as its destination, and the caller's token or a generated
/// one as its key, and its identifier is the last in the owner's record;
/// an error that comes back is one that this path of the allocation can
/// end in.
pub fn allocate(
    repositories: &Repositories,
    caller_identity: Option<Vec<u8>>,
    url: String,
    custom_token: Option<String>,
) -> (allocation: Result<(Link, User), LinkAllocationError>)
    ensures
        match spec_validate(caller_identity is Some, url_parses(url@), token_view(custom_token)) {
            Err(e) => allocation == Err::<(Link, User), LinkAllocationError>(e),
            Ok(_) => match allocation {
                Ok((link, owner)) => {
                    &&& allocated(link, caller_identity.unwrap()@, url@, token_view(custom_token))
                    &&& owner@.links_ids.len() > 0
                    &&& owner@.links_ids.last() == link.id
                    &&& !owner@.links_ids.drop_last().contains(link.id)
                },
                Err(e) => may_fail_with(e, custom_token is Some),
            },
        },
{
    let url_ok = url_complaint(url.as_str()).is_none();
    match validate(caller_identity.is_some(), url_ok, &custom_token) {
        Err(e) => {
            return Err(e);
        },
        Ok(_) => {},
    }
    let owner = match caller_identity {
        Some(owner) => owner,
        None => {
            return Err(LinkAllocationError::Unauthorized);
        },
    };
    match &custom_token {
        Some(token) => {
            let found = repositories.link.find_by_key(token.as_str().as_bytes());
            match availability(&found) {
                Err(e) => {
                    return Err(e);
                },
                Ok(_) => {},
            }
        },
        None => {},
    }
    let link = match persist(&repositories.link, &owner, &url, &custom_token) {
        Ok(link) => link,
        Err(e) => {
            return Err(e);
        },
    };
    let updated = repositories.user.update(owner, UserChange::AppendLink(link.id));
    proof {
        if updated is Ok {
            let after = updated.unwrap()@;
            let before = choose|before: UserView|
                spec_apply_change(before, UserChange::AppendLink(link.id)) == Ok::<
                    UserView,
                    ChangeError,
                >(after);
            assert(after.links_ids.drop_last() =~= before.links_ids);
        }
    }
    after_owner_update(link, updated)
}

/// Allocates a short link to `url` for the caller: `allocate`, with the
/// link alone handed out.
pub fn allocate_link(
    repositories: &Repositories,
    caller_identity: Option<Vec<u8>>,
    url: String,
    custom_token: Option<String>,
) -> (allocation: Result<Link, LinkAllocationError>)
    ensures
        match spec_validate(caller_identity is Some, url_parses(url@), token_view(custom_token)) {
            Err(e) => allocation == Err::<Link, LinkAllocationError>(e),
            Ok(_) => match allocation {
                Ok(link) => allocated(
                    link,
                    caller_identity.unwrap()@,
                    url@,
                    token_view(custom_token),
                ),
                Err(e) => may_fail_with(e, custom_token is Some),
            },
        },
{
    match allocate(repositories, caller_identity, url, custom_token) {
        Ok((link, _)) => Ok(link),
        Err(e) => Err(e),
    }
}

/// The code under which an allocation's error is reported.
pub open spec fn spec_code(e: LinkAllocationError) -> LinkErrorCode {
    match e {
        LinkAllocationError::Unauthorized => LinkErrorCode::Unauthorized,
        LinkAllocationError::InvalidUrl => LinkErrorCode::InvalidUrl,
        LinkAllocationError::CustomTokenInvalid => LinkErrorCode::CustomHashInvalid,
        LinkAllocationError::CustomTokenUsed => LinkErrorCode::CustomHashUsed,
        LinkAllocationError::AllocationExhausted => LinkErrorCode::AllocationExhausted,
        LinkAllocationError::Storage(_) => LinkErrorCode::Storage,
        LinkAllocationError::OwnerUpdateFailed { .. } => LinkErrorCode::OwnerUpdateFailed,
    }
}

pub fn code(e: LinkAllocationError) -> (code: LinkErrorCode)
    ensures
        code == spec_code(e),
{
    match e {
        LinkAllocationError::Unauthorized => LinkErrorCode::Unauthorized,
        LinkAllocationError::InvalidUrl => LinkErrorCode::InvalidUrl,
        LinkAllocationError::CustomTokenInvalid => LinkErrorCode::CustomHashInvalid,
        LinkAllocationError::CustomTokenUsed => LinkErrorCode::CustomHashUsed,
        LinkAllocationError::AllocationExhausted => LinkErrorCode::AllocationExhausted,
        LinkAllocationError::Storage(_) => LinkErrorCode::Storage,
        LinkAllocationError::OwnerUpdateFailed { .. } => LinkErrorCode::OwnerUpdateFailed,
    }
}

/// The sentence that goes with an error. An invalid URL is described by
/// the parser's complaint and a taken token is named, where they are known.
pub open spec fn spec_message(
    e: LinkAllocationError,
    url_complaint: Option<Seq<char>>,
    custom_token: Option<Seq<char>>,
) -> Seq<char> {
    match e {
        LinkAllocationError::Unauthorized => "You must create a token using token create"@,
        LinkAllocationError::InvalidUrl => match url_complaint {
            Some(complaint) => complaint,
            None => "The URL is not a well-formed absolute URL"@,
        },
        LinkAllocationError::CustomTokenInvalid => "The custom hash cannot be empty"@,
        LinkAllocationError::CustomTokenUsed => match custom_token {
            Some(token) => "Link with hash \""@ + token + "\" already exists"@,
            None => "Link with this hash already exists"@,
        },
        LinkAllocationError::AllocationExhausted => "No free hash was found"@,
        LinkAllocationError::Storage(_) => "The store failed"@,
        LinkAllocationError::OwnerUpdateFailed { .. } =>
            "The link was created but not added to its owner"@,
    }
}

pub fn message(
    e: LinkAllocationError,
    url_complaint: Option<String>,
    custom_token: &Option<String>,
) -> (text: String)
    ensures
        text@ == spec_message(e, token_view(url_complaint), token_view(*custom_token)),
{
    match e {
        LinkAllocationError::Unauthorized => String::from_str(
            "You must create a token using token create",
        ),
        LinkAllocationError::InvalidUrl => match url_complaint {
            Some(complaint) => complaint,
            None => String::from_str("The URL is not a well-formed absolute URL"),
        },
        LinkAllocationError::CustomTokenInvalid => String::from_str(
            "The custom hash cannot be empty",
        ),
        LinkAllocationError::CustomTokenUsed => match custom_token {
            Some(token) => String::from_str("Link with hash \"").concat(token.as_str()).concat(
                "\" already exists",
            ),
            None => String::from_str("Link with this hash already exists"),
        },
        LinkAllocationError::AllocationExhausted => String::from_str("No free hash was found"),
        LinkAllocationError::Storage(_) => String::from_str("The store failed"),
        LinkAllocationError::OwnerUpdateFailed { .. } => String::from_str(
            "The link was created but not added to its owner",
        ),
    }
}

impl LinkCreate {
    /// The answer for an allocation's result: the link alone, or the error
    /// alone with its code and sentence.
    pub fn report(
        allocation: Result<Link, LinkAllocationError>,
        url_complaint: Option<String>,
        custom_token: &Option<String>,
    ) -> (answer: LinkCreate)
        ensures
            match allocation {
                Ok(link) => answer.link == Some(link) && answer.error is None,
                Err(e) => {
                    &&& answer.link is None
                    &&& answer.error is Some
                    &&& answer.error.unwrap().code == spec_code(e)
                    &&& answer.error.unwrap().message@ == spec_message(
                        e,
                        token_view(url_complaint),
                        token_view(*custom_token),
                    )
                },
            },
    {
        match allocation {
            Ok(link) => LinkCreate { link: Some(link), error: None },
            Err(e) => LinkCreate {
                link: None,
                error: Some(
                    LinkError { code: code(e), message: message(e, url_complaint, custom_token) },
                ),
            },
        }
    }

    /// Allocates a link for the caller and reports the outcome. A request
    /// that fails a check is answered with that check's code and no link;
    /// any answer holds a link or an error, never both.
    pub fn exec(
        repositories: &Repositories,
        caller_identity: Option<Vec<u8>>,
        input: LinkCreateInput,
    ) -> (answer: LinkCreate)
        ensures
            answer.link is Some <==> answer.error is None,
            match spec_validate(
                caller_identity is Some,
                url_parses(input.url@),
                token_view(input.custom_hash),
            ) {
                Err(e) => answer.link is None && answer.error.unwrap().code == spec_code(e),
                Ok(_) => match answer.link {
                    Some(link) => allocated(
                        link,
                        caller_identity.unwrap()@,
                        input.url@,
                        token_view(input.custom_hash),
                    ),
                    None => may_fail_with_code(
                        answer.error.unwrap().code,
                        input.custom_hash is Some,
                    ),
                },
            },
    {
        let complaint = url_complaint(input.url.as_str());
        let token = match &input.custom_hash {
            Some(token) => Some(token.clone()),
            None => None,
        };
        let allocation = allocate_link(repositories, caller_identity, input.url, input.custom_hash);
        LinkCreate::report(allocation, complaint, &token)
    }

    /// A fresh candidate token: `TOKEN_LENGTH` samples are drawn, and the
    /// token is `token_of` them. Whether it is free is for the store to say.
    pub fn create_hash() -> (token: String)
        ensures
            is_token(token@),
    {
        let mut samples: Vec<u8> = Vec::new();
        while samples.len() < TOKEN_LENGTH
            invariant
                samples@.len() <= TOKEN_LENGTH,
                forall|j: int|
                    0 <= j < samples@.len() ==> is_alphanumeric(#[trigger] samples@[j] as char),
            decreases TOKEN_LENGTH - samples@.len(),
        {
            samples.push(sample_alphanumeric());
        }
        token_of(&samples)
    }
}

} // verus!

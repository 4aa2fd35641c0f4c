//! What holds of the allocation as a whole.
//!
//! The engine applies each of its operations atomically, so whatever
//! callers do at the same time, a namespace sees their operations one
//! after the other. What is stated of namespaces is stated of that
//! sequence: a namespace is a map from keys to stored bytes, and a create
//! is the engine's compare-and-swap against an absent value.
//!
//! The second half runs one whole allocation against two such maps, the
//! links and the users, with the step functions that the executable
//! allocation uses, and says what the maps hold afterwards.

use vstd::prelude::*;
use vstd::utf8::*;
use crate::codec::{
    lemma_link_round_trip, lemma_user_round_trip, link_fits, spec_encode_link, spec_encode_user,
    user_fits,
};
use crate::error::{ChangeError, LinkAllocationError, StorageError};
use crate::link_create::{
    lemma_next_answer, spec_after_create, spec_availability, spec_persist, spec_validate, Step,
    ALLOCATION_ATTEMPTS,
};
use crate::model::{Link, LinkView, User, UserView};
use crate::outcomes::{
    spec_apply_change, spec_created, spec_found, spec_next_user, UserChange,
};

verus! {

/// What a namespace holds: stored bytes by key.
pub type Space = Map<Seq<u8>, Seq<u8>>;

/// What a lookup in the namespace answers.
pub open spec fn spec_get(space: Space, key: Seq<u8>) -> Option<Seq<u8>> {
    if space.dom().contains(key) {
        Some(space[key])
    } else {
        None
    }
}

/// A create: the value goes in and the swap is reported where the key is
/// free; nothing changes where it is taken.
pub open spec fn spec_create(space: Space, key: Seq<u8>, value: Seq<u8>) -> (Space, bool) {
    if space.dom().contains(key) {
        (space, false)
    } else {
        (space.insert(key, value), true)
    }
}

/// The namespace after creates of `values` under one key, in this order.
pub open spec fn spec_after_creates(space: Space, key: Seq<u8>, values: Seq<Seq<u8>>) -> Space
    decreases values.len(),
{
    if values.len() == 0 {
        space
    } else {
        spec_create(spec_after_creates(space, key, values.drop_last()), key, values.last()).0
    }
}

/// Whether the `i`-th of these creates is the one that the engine swaps.
pub open spec fn spec_wins(space: Space, key: Seq<u8>, values: Seq<Seq<u8>>, i: int) -> bool {
    spec_create(spec_after_creates(space, key, values.take(i)), key, values[i]).1
}

/// Of any number of creates under one key, in whatever order the engine
/// takes them, only the first can be swapped, and only if the key was
/// free. So at most one allocation of a caller's token gets its link, and
/// each of the others ends with `CustomTokenUsed`.
pub proof fn lemma_one_winner(space: Space, key: Seq<u8>, values: Seq<Seq<u8>>, i: int)
    requires
        0 <= i < values.len(),
    ensures
        spec_wins(space, key, values, i) <==> i == 0 && !space.dom().contains(key),
        forall|attempt: nat, link: Link|
            !spec_wins(space, key, values, i) ==> #[trigger] spec_after_create(
                true,
                attempt,
                spec_created(link, spec_wins(space, key, values, i)),
            ) == Step::Failed(LinkAllocationError::CustomTokenUsed),
{
    let earlier = values.take(i);
    if i > 0 {
        assert(spec_after_creates(space, key, earlier).dom().contains(key));
    } else {
        assert(earlier.len() == 0);
    }
}

proof fn lemma_first_value_stays(space: Space, key: Seq<u8>, values: Seq<Seq<u8>>)
    requires
        values.len() > 0,
        !space.dom().contains(key),
    ensures
        spec_get(spec_after_creates(space, key, values), key) == Some(values[0]),
    decreases values.len(),
{
    let earlier = spec_after_creates(space, key, values.drop_last());
    if values.len() > 1 {
        lemma_first_value_stays(space, key, values.drop_last());
        assert(values.drop_last()[0] == values[0]);
        assert(earlier.dom().contains(key));
    } else {
        assert(values.drop_last().len() == 0);
        assert(earlier == space);
        assert(values.last() == values[0]);
    }
}

/// Once a link is created under a free token, every later allocation of
/// that token finds it taken: its lookup finds the first link, which ends
/// it with `CustomTokenUsed`, whatever the later creates tried to store.
pub proof fn lemma_later_lookup_finds_first(
    space: Space,
    key: Seq<u8>,
    first: LinkView,
    values: Seq<Seq<u8>>,
)
    requires
        values.len() > 0,
        link_fits(first),
        values[0] == spec_encode_link(first),
        !space.dom().contains(key),
    ensures
        spec_found::<Link>(spec_get(spec_after_creates(space, key, values), key)) == Ok::<
            Option<LinkView>,
            StorageError,
        >(Some(first)),
        spec_availability(
            spec_found::<Link>(spec_get(spec_after_creates(space, key, values), key)),
        ) == Err::<(), LinkAllocationError>(LinkAllocationError::CustomTokenUsed),
{
    lemma_first_value_stays(space, key, values);
    lemma_link_round_trip(first);
}

proof fn lemma_collisions_retry(answers: Seq<Result<Link, StorageError>>, before: nat)
    requires
        before + answers.len() < ALLOCATION_ATTEMPTS,
        forall|i: int|
            0 <= i < answers.len() ==> answers[i] == Err::<Link, StorageError>(
                StorageError::Conflict,
            ),
    ensures
        spec_persist(false, answers, before) == Step::Retry,
    decreases answers.len(),
{
    if answers.len() > 0 {
        lemma_collisions_retry(answers.drop_first(), before + 1);
    }
}

/// A generated token that collides `n` times and is free at the next
/// attempt gives the link, as long as that attempt is within the limit.
pub proof fn lemma_success_after_collisions(answers: Seq<Result<Link, StorageError>>, link: Link)
    requires
        1 <= answers.len() <= ALLOCATION_ATTEMPTS,
        forall|i: int|
            0 <= i < answers.len() - 1 ==> answers[i] == Err::<Link, StorageError>(
                StorageError::Conflict,
            ),
        answers.last() == Ok::<Link, StorageError>(link),
    ensures
        spec_persist(false, answers, 0) == Step::Done(link),
{
    let collisions = answers.drop_last();
    lemma_collisions_retry(collisions, 0);
    lemma_next_answer(false, collisions, answers.last(), 0);
    assert(collisions.push(answers.last()) =~= answers);
}

/// A generated token that collides at every attempt up to the limit ends
/// the allocation with `AllocationExhausted`.
pub proof fn lemma_exhausted_at_limit(answers: Seq<Result<Link, StorageError>>)
    requires
        answers.len() == ALLOCATION_ATTEMPTS,
        forall|i: int|
            0 <= i < answers.len() ==> answers[i] == Err::<Link, StorageError>(
                StorageError::Conflict,
            ),
    ensures
        spec_persist(false, answers, 0) == Step::Failed(LinkAllocationError::AllocationExhausted),
{
    let collisions = answers.drop_last();
    lemma_collisions_retry(collisions, 0);
    lemma_next_answer(false, collisions, answers.last(), 0);
    assert(collisions.push(answers.last()) =~= answers);
}

/// Once a link is created under a free token and its identifier appended
/// to its owner's stored record, a lookup of the token finds that link,
/// and a lookup of the owner finds a user whose list holds the link's
/// identifier, behind the identifiers that were there before.
pub proof fn lemma_owner_knows_link(
    links: Space,
    users: Space,
    link: LinkView,
    owner: UserView,
    changed: UserView,
)
    requires
        link_fits(link),
        user_fits(changed),
        !links.dom().contains(link.key),
        spec_apply_change(owner, UserChange::AppendLink(link.id)) == Ok::<UserView, ChangeError>(changed),
    ensures
        spec_create(links, link.key, spec_encode_link(link)).1,
        spec_found::<Link>(
            spec_get(spec_create(links, link.key, spec_encode_link(link)).0, link.key),
        ) == Ok::<Option<LinkView>, StorageError>(Some(link)),
        spec_found::<User>(spec_get(users.insert(owner.id, spec_encode_user(changed)), owner.id))
            == Ok::<Option<UserView>, StorageError>(Some(changed)),
        changed.links_ids.contains(link.id),
        changed.links_ids == owner.links_ids.push(link.id),
{
    lemma_link_round_trip(link);
    lemma_user_round_trip(changed);
    assert(changed.links_ids.last() == link.id);
}

/// The two namespaces as one allocation finds and leaves them.
pub ghost struct Ledger {
    pub links: Space,
    pub users: Space,
}

/// What the creates of one allocation do to the link namespace while the
/// engine does not fail and nobody else writes to it. `drafts` are the
/// links that the attempts would store, in the order of the attempts;
/// `Retry` says that a further draft is awaited.
pub open spec fn spec_persist_on(links: Space, custom: bool, drafts: Seq<Link>, before: nat) -> (
    Space,
    Step,
)
    decreases drafts.len(),
{
    if drafts.len() == 0 {
        (links, Step::Retry)
    } else {
        let draft = drafts.first();
        let made = spec_create(links, draft@.key, spec_encode_link(draft@));
        match spec_after_create(custom, before + 1, spec_created(draft, made.1)) {
            Step::Retry => spec_persist_on(made.0, custom, drafts.drop_first(), before + 1),
            ended => (made.0, ended),
        }
    }
}

/// What the creates of these drafts answer while the namespace is as it
/// is: the draft where its key is free, a `Conflict` where it is taken.
pub open spec fn spec_answers_on(links: Space, drafts: Seq<Link>) -> Seq<
    Result<Link, StorageError>,
> {
    Seq::new(
        drafts.len(),
        |i: int| spec_created(drafts[i], !links.dom().contains(drafts[i]@.key)),
    )
}

/// The run over a namespace ends as `persist` does on the answers that
/// the namespace gives.
pub proof fn lemma_persist_on_follows_answers(
    links: Space,
    custom: bool,
    drafts: Seq<Link>,
    before: nat,
)
    ensures
        spec_persist_on(links, custom, drafts, before).1 == spec_persist(
            custom,
            spec_answers_on(links, drafts),
            before,
        ),
    decreases drafts.len(),
{
    let answers = spec_answers_on(links, drafts);
    if drafts.len() > 0 {
        let rest = drafts.drop_first();
        let made = spec_create(links, drafts[0]@.key, spec_encode_link(drafts[0]@));
        assert(answers.first() == spec_created(drafts[0], made.1));
        assert(answers.drop_first() =~= spec_answers_on(links, rest));
        if spec_after_create(custom, before + 1, answers.first()) == Step::Retry {
            assert(made.0 == links);
            lemma_persist_on_follows_answers(links, custom, rest, before + 1);
        }
    }
}

/// One allocation run against the two namespaces, under the same
/// conditions: the checks, the lookup of a caller's token, the creates,
/// and the append to the owner's record.
pub open spec fn spec_allocate_on(
    ledger: Ledger,
    owner: Option<Seq<u8>>,
    url_ok: bool,
    custom_token: Option<Seq<char>>,
    drafts: Seq<Link>,
) -> (Ledger, Step) {
    let free = match custom_token {
        Some(token) => spec_availability(
            spec_found::<Link>(spec_get(ledger.links, encode_utf8(token))),
        ),
        None => Ok(()),
    };
    match spec_validate(owner is Some, url_ok, custom_token) {
        Err(e) => (ledger, Step::Failed(e)),
        Ok(_) => match free {
            Err(e) => (ledger, Step::Failed(e)),
            Ok(_) => {
                let stored = spec_persist_on(ledger.links, custom_token is Some, drafts, 0);
                match stored.1 {
                    Step::Done(link) => match spec_next_user(
                        spec_get(ledger.users, owner.unwrap()),
                        UserChange::AppendLink(link.id),
                    ) {
                        Ok(next) => (
                            Ledger {
                                links: stored.0,
                                users: ledger.users.insert(owner.unwrap(), next.1),
                            },
                            Step::Done(link),
                        ),
                        Err(_) => (
                            Ledger { links: stored.0, users: ledger.users },
                            Step::Failed(
                                LinkAllocationError::OwnerUpdateFailed { link_id: link.id },
                            ),
                        ),
                    },
                    ended => (Ledger { links: stored.0, users: ledger.users }, ended),
                }
            },
        },
    }
}

/// Drafts whose first `n` keys are taken and whose next key is free.
pub open spec fn collides_then_free(links: Space, drafts: Seq<Link>, n: int) -> bool {
    &&& 0 <= n < drafts.len()
    &&& forall|i: int| 0 <= i < n ==> links.dom().contains(#[trigger] drafts[i]@.key)
    &&& !links.dom().contains(drafts[n]@.key)
}

/// After `n` collisions the next draft is stored, if its attempt is
/// within the limit; the links that were there stay as they were. A
/// caller's token gets one attempt.
pub proof fn lemma_persist_after_collisions(
    links: Space,
    custom: bool,
    drafts: Seq<Link>,
    n: int,
    before: nat,
)
    requires
        collides_then_free(links, drafts, n),
        before + n + 1 <= ALLOCATION_ATTEMPTS,
        custom ==> n == 0,
    ensures
        spec_persist_on(links, custom, drafts, before) == (
            links.insert(drafts[n]@.key, spec_encode_link(drafts[n]@)),
            Step::Done(drafts[n]),
        ),
    decreases n,
{
    if n > 0 {
        let rest = drafts.drop_first();
        assert(links.dom().contains(drafts[0]@.key));
        assert forall|i: int| 0 <= i < n - 1 implies links.dom().contains(
            #[trigger] rest[i]@.key,
        ) by {
            assert(rest[i] == drafts[i + 1]);
            assert(links.dom().contains(drafts[i + 1]@.key));
        }
        assert(rest[n - 1] == drafts[n]);
        lemma_persist_after_collisions(links, custom, rest, n - 1, before + 1);
    }
}

/// Where every attempt up to the limit collides, the allocation is
/// exhausted and the namespace is as it was.
pub proof fn lemma_persist_exhausted(links: Space, drafts: Seq<Link>, before: nat)
    requires
        before < ALLOCATION_ATTEMPTS,
        drafts.len() >= ALLOCATION_ATTEMPTS - before,
        forall|i: int|
            0 <= i < ALLOCATION_ATTEMPTS - before ==> links.dom().contains(
                #[trigger] drafts[i]@.key,
            ),
    ensures
        spec_persist_on(links, false, drafts, before) == (
            links,
            Step::Failed(LinkAllocationError::AllocationExhausted),
        ),
    decreases ALLOCATION_ATTEMPTS - before,
{
    assert(links.dom().contains(drafts[0]@.key));
    if before + 1 < ALLOCATION_ATTEMPTS {
        let rest = drafts.drop_first();
        assert forall|i: int| 0 <= i < ALLOCATION_ATTEMPTS - (before + 1) implies links.dom().contains(
            #[trigger] rest[i]@.key,
        ) by {
            assert(rest[i] == drafts[i + 1]);
            assert(links.dom().contains(drafts[i + 1]@.key));
        }
        lemma_persist_exhausted(links, rest, before + 1);
    }
}

/// A request that fails a check leaves both namespaces as they were.
pub proof fn lemma_refused_changes_nothing(
    ledger: Ledger,
    owner: Option<Seq<u8>>,
    url_ok: bool,
    custom_token: Option<Seq<char>>,
    drafts: Seq<Link>,
)
    requires
        spec_validate(owner is Some, url_ok, custom_token) is Err,
    ensures
        spec_allocate_on(ledger, owner, url_ok, custom_token, drafts) == (
            ledger,
            Step::Failed(spec_validate(owner is Some, url_ok, custom_token)->Err_0),
        ),
{
}

/// A request in order, whose owner has a record and whose token is free
/// after `n` collisions within the limit, gets the link of that attempt.
/// Afterwards a lookup of the link's key finds the link, field for field;
/// a lookup of the owner finds the record as it was with the link's
/// identifier appended; and nothing else in either namespace has changed.
pub proof fn lemma_allocation_succeeds(
    ledger: Ledger,
    owner: Seq<u8>,
    custom_token: Option<Seq<char>>,
    drafts: Seq<Link>,
    n: int,
    record: UserView,
)
    requires
        spec_validate(true, true, custom_token) is Ok,
        collides_then_free(ledger.links, drafts, n),
        n + 1 <= ALLOCATION_ATTEMPTS,
        custom_token is Some ==> n == 0 && drafts[0]@.key == encode_utf8(custom_token.unwrap()),
        link_fits(drafts[n]@),
        spec_get(ledger.users, owner) == Some(spec_encode_user(record)),
        user_fits(record),
        record.links_ids.len() < u64::MAX,
        !record.links_ids.contains(drafts[n].id),
    ensures
        ({
            let link = drafts[n];
            let after = spec_allocate_on(ledger, Some(owner), true, custom_token, drafts);
            let grown = UserView { id: record.id, links_ids: record.links_ids.push(link.id) };
            &&& after.1 == Step::Done(link)
            &&& after.0.links == ledger.links.insert(link@.key, spec_encode_link(link@))
            &&& after.0.users == ledger.users.insert(owner, spec_encode_user(grown))
            &&& spec_found::<Link>(spec_get(after.0.links, link@.key)) == Ok::<
                Option<LinkView>,
                StorageError,
            >(Some(link@))
            &&& spec_found::<User>(spec_get(after.0.users, owner)) == Ok::<
                Option<UserView>,
                StorageError,
            >(Some(grown))
        }),
{
    let link = drafts[n];
    let grown = UserView { id: record.id, links_ids: record.links_ids.push(link.id) };
    lemma_persist_after_collisions(ledger.links, custom_token is Some, drafts, n, 0);
    lemma_user_round_trip(record);
    lemma_user_round_trip(grown);
    lemma_link_round_trip(link@);
    assert(spec_apply_change(record, UserChange::AppendLink(link.id)) == Ok::<
        UserView,
        ChangeError,
    >(grown));
}

/// Once a caller's token is given out, an allocation of the same token
/// ends with `CustomTokenUsed` and leaves both namespaces as they were,
/// whoever asks and whatever link it would have stored.
pub proof fn lemma_taken_token_is_refused(
    ledger: Ledger,
    owner: Seq<u8>,
    token: Seq<char>,
    drafts: Seq<Link>,
    holder: LinkView,
)
    requires
        spec_validate(true, true, Some(token)) is Ok,
        link_fits(holder),
        spec_get(ledger.links, encode_utf8(token)) == Some(spec_encode_link(holder)),
    ensures
        spec_allocate_on(ledger, Some(owner), true, Some(token), drafts) == (
            ledger,
            Step::Failed(LinkAllocationError::CustomTokenUsed),
        ),
{
    lemma_link_round_trip(holder);
}

/// A generated token that collides at every attempt up to the limit ends
/// the allocation with `AllocationExhausted`: no link is stored and no
/// record changes.
pub proof fn lemma_exhaustion_changes_nothing(ledger: Ledger, owner: Seq<u8>, drafts: Seq<Link>)
    requires
        drafts.len() >= ALLOCATION_ATTEMPTS,
        forall|i: int|
            0 <= i < ALLOCATION_ATTEMPTS ==> ledger.links.dom().contains(
                #[trigger] drafts[i]@.key,
            ),
    ensures
        spec_allocate_on(ledger, Some(owner), true, None, drafts) == (
            ledger,
            Step::Failed(LinkAllocationError::AllocationExhausted),
        ),
{
    lemma_persist_exhausted(ledger.links, drafts, 0);
}

} // verus!

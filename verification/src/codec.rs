//! The byte format of stored entities.
//!
//! A number is eight little-endian bytes. A byte string is its length as a
//! number, then its bytes. A text is the byte string of its UTF-8 encoding.
//! A link is its identifier, its two timestamps, its key, its owner and its
//! destination, in that order. A user is its identity, the count of its
//! links and then each link identifier. Nothing may follow the last field.

use vstd::prelude::*;
use vstd::bytes::*;
use vstd::utf8::*;
use vstd::slice::*;
use crate::model::{Link, LinkView, User, UserView};
use crate::text::text_from_utf8;

verus! {

/// A byte string, framed by its length.
pub open spec fn spec_field(bytes: Seq<u8>) -> Seq<u8> {
    spec_u64_to_le_bytes(bytes.len() as u64) + bytes
}

/// Link identifiers one after the other.
pub open spec fn spec_ids(ids: Seq<u64>) -> Seq<u8>
    decreases ids.len(),
{
    if ids.len() == 0 {
        Seq::empty()
    } else {
        spec_ids(ids.drop_last()) + spec_u64_to_le_bytes(ids.last())
    }
}

pub open spec fn spec_encode_link(link: LinkView) -> Seq<u8> {
    spec_u64_to_le_bytes(link.id) + spec_u64_to_le_bytes(link.created_at as u64)
        + spec_u64_to_le_bytes(link.updated_at as u64) + spec_field(link.key) + spec_field(
        link.owner_id,
    ) + spec_field(encode_utf8(link.original_url))
}

pub open spec fn spec_encode_user(user: UserView) -> Seq<u8> {
    spec_field(user.id) + spec_u64_to_le_bytes(user.links_ids.len() as u64) + spec_ids(
        user.links_ids,
    )
}

/// The number at `pos` and the position behind it.
pub open spec fn spec_read_u64(bytes: Seq<u8>, pos: int) -> Option<(u64, int)> {
    if 0 <= pos && pos + 8 <= bytes.len() {
        Some((spec_u64_from_le_bytes(bytes.subrange(pos, pos + 8)), pos + 8))
    } else {
        None
    }
}

/// The framed byte string at `pos` and the position behind it.
pub open spec fn spec_read_field(bytes: Seq<u8>, pos: int) -> Option<(Seq<u8>, int)> {
    match spec_read_u64(bytes, pos) {
        Some((len, start)) => if start + len <= bytes.len() {
            Some((bytes.subrange(start, start + len), start + len))
        } else {
            None
        },
        None => None,
    }
}

/// The `count` numbers that start at `pos`.
pub open spec fn spec_read_ids(bytes: Seq<u8>, pos: int, count: int) -> Seq<u64> {
    Seq::new(
        count as nat,
        |i: int| spec_u64_from_le_bytes(bytes.subrange(pos + 8 * i, pos + 8 * i + 8)),
    )
}

pub open spec fn spec_decode_link(bytes: Seq<u8>) -> Option<LinkView> {
    match spec_read_u64(bytes, 0) {
        Some((id, p1)) => match spec_read_u64(bytes, p1) {
            Some((created, p2)) => match spec_read_u64(bytes, p2) {
                Some((updated, p3)) => match spec_read_field(bytes, p3) {
                    Some((key, p4)) => match spec_read_field(bytes, p4) {
                        Some((owner_id, p5)) => match spec_read_field(bytes, p5) {
                            Some((url, p6)) => if p6 == bytes.len() && valid_utf8(url) {
                                Some(
                                    LinkView {
                                        id,
                                        key,
                                        original_url: decode_utf8(url),
                                        owner_id,
                                        created_at: created as i64,
                                        updated_at: updated as i64,
                                    },
                                )
                            } else {
                                None
                            },
                            None => None,
                        },
                        None => None,
                    },
                    None => None,
                },
                None => None,
            },
            None => None,
        },
        None => None,
    }
}

pub open spec fn spec_decode_user(bytes: Seq<u8>) -> Option<UserView> {
    match spec_read_field(bytes, 0) {
        Some((id, p1)) => match spec_read_u64(bytes, p1) {
            Some((count, p2)) => if p2 + 8 * count == bytes.len() {
                Some(UserView { id, links_ids: spec_read_ids(bytes, p2, count as int) })
            } else {
                None
            },
            None => None,
        },
        None => None,
    }
}

/// What the format can hold: every length fits a number.
pub open spec fn link_fits(link: LinkView) -> bool {
    &&& link.key.len() <= u64::MAX
    &&& link.owner_id.len() <= u64::MAX
    &&& encode_utf8(link.original_url).len() <= u64::MAX
}

pub open spec fn user_fits(user: UserView) -> bool {
    &&& user.id.len() <= u64::MAX
    &&& user.links_ids.len() <= u64::MAX
}

proof fn lemma_read_u64_at(bytes: Seq<u8>, pos: int, value: u64)
    requires
        0 <= pos,
        pos + 8 <= bytes.len(),
        bytes.subrange(pos, pos + 8) == spec_u64_to_le_bytes(value),
    ensures
        spec_read_u64(bytes, pos) == Some((value, pos + 8)),
{
    lemma_auto_spec_u64_to_from_le_bytes();
}

proof fn lemma_read_field_at(bytes: Seq<u8>, pos: int, field: Seq<u8>)
    requires
        0 <= pos,
        field.len() <= u64::MAX,
        pos + 8 + field.len() <= bytes.len(),
        bytes.subrange(pos, pos + 8 + field.len()) == spec_field(field),
    ensures
        spec_read_field(bytes, pos) == Some((field, pos + 8 + field.len())),
{
    lemma_auto_spec_u64_to_from_le_bytes();
    let framed = spec_field(field);
    assert(bytes.subrange(pos, pos + 8) =~= framed.subrange(0, 8));
    assert(framed.subrange(0, 8) =~= spec_u64_to_le_bytes(field.len() as u64));
    assert(bytes.subrange(pos + 8, pos + 8 + field.len()) =~= framed.subrange(
        8,
        8 + field.len() as int,
    ));
    assert(framed.subrange(8, 8 + field.len() as int) =~= field);
}

proof fn lemma_ids_len(ids: Seq<u64>)
    ensures
        spec_ids(ids).len() == 8 * ids.len(),
    decreases ids.len(),
{
    lemma_auto_spec_u64_to_from_le_bytes();
    if ids.len() > 0 {
        lemma_ids_len(ids.drop_last());
    }
}

proof fn lemma_ids_at(ids: Seq<u64>, i: int)
    requires
        0 <= i < ids.len(),
    ensures
        spec_ids(ids).len() == 8 * ids.len(),
        spec_ids(ids).subrange(8 * i, 8 * i + 8) == spec_u64_to_le_bytes(ids[i]),
    decreases ids.len(),
{
    lemma_auto_spec_u64_to_from_le_bytes();
    lemma_ids_len(ids);
    lemma_ids_len(ids.drop_last());
    let front = spec_ids(ids.drop_last());
    let back = spec_u64_to_le_bytes(ids.last());
    if i == ids.len() - 1 {
        assert((front + back).subrange(8 * i, 8 * i + 8) =~= back);
    } else {
        lemma_ids_at(ids.drop_last(), i);
        assert((front + back).subrange(8 * i, 8 * i + 8) =~= front.subrange(8 * i, 8 * i + 8));
    }
}

/// Decoding what was encoded gives the link back, field for field.
pub proof fn lemma_link_round_trip(link: LinkView)
    requires
        link_fits(link),
    ensures
        spec_decode_link(spec_encode_link(link)) == Some(link),
{
    lemma_auto_spec_u64_to_from_le_bytes();
    encode_utf8_valid_utf8(link.original_url);
    encode_utf8_decode_utf8(link.original_url);
    let bytes = spec_encode_link(link);
    let url = encode_utf8(link.original_url);
    let p4: int = 32 + link.key.len() as int;
    let p5: int = p4 + 8 + link.owner_id.len();
    let p6: int = p5 + 8 + url.len();
    assert(bytes.len() == p6);
    assert(bytes.subrange(0, 8) =~= spec_u64_to_le_bytes(link.id));
    assert(bytes.subrange(8, 16) =~= spec_u64_to_le_bytes(link.created_at as u64));
    assert(bytes.subrange(16, 24) =~= spec_u64_to_le_bytes(link.updated_at as u64));
    assert(bytes.subrange(24, p4) =~= spec_field(link.key));
    assert(bytes.subrange(p4, p5) =~= spec_field(link.owner_id));
    assert(bytes.subrange(p5, p6) =~= spec_field(url));
    lemma_read_u64_at(bytes, 0, link.id);
    lemma_read_u64_at(bytes, 8, link.created_at as u64);
    lemma_read_u64_at(bytes, 16, link.updated_at as u64);
    lemma_read_field_at(bytes, 24, link.key);
    lemma_read_field_at(bytes, p4, link.owner_id);
    lemma_read_field_at(bytes, p5, url);
    let created: i64 = link.created_at;
    let updated: i64 = link.updated_at;
    assert((created as u64) as i64 == created) by (bit_vector);
    assert((updated as u64) as i64 == updated) by (bit_vector);
}

/// Decoding what was encoded gives the user back, field for field.
pub proof fn lemma_user_round_trip(user: UserView)
    requires
        user_fits(user),
    ensures
        spec_decode_user(spec_encode_user(user)) == Some(user),
{
    lemma_auto_spec_u64_to_from_le_bytes();
    lemma_ids_len(user.links_ids);
    let bytes = spec_encode_user(user);
    let count = user.links_ids.len() as u64;
    let p1: int = 8 + user.id.len() as int;
    let p2: int = p1 + 8;
    assert(bytes.len() == p2 + 8 * count);
    assert(bytes.subrange(0, p1) =~= spec_field(user.id));
    assert(bytes.subrange(p1, p2) =~= spec_u64_to_le_bytes(count));
    lemma_read_field_at(bytes, 0, user.id);
    lemma_read_u64_at(bytes, p1, count);
    let read = spec_read_ids(bytes, p2, count as int);
    assert forall|i: int| 0 <= i < user.links_ids.len() implies read[i] == user.links_ids[i] by {
        lemma_ids_at(user.links_ids, i);
        assert(bytes.subrange(p2 + 8 * i, p2 + 8 * i + 8) =~= spec_ids(user.links_ids).subrange(
            8 * i,
            8 * i + 8,
        ));
    }
    assert(read =~= user.links_ids);
}

fn put_u64(out: &mut Vec<u8>, value: u64)
    ensures
        final(out)@ == old(out)@ + spec_u64_to_le_bytes(value),
{
    let mut bytes = u64_to_le_bytes(value);
    out.append(&mut bytes);
}

fn put_field(out: &mut Vec<u8>, bytes: &[u8])
    ensures
        final(out)@ == old(out)@ + spec_field(bytes@),
{
    put_u64(out, bytes.len() as u64);
    let mut copy = slice_to_vec(bytes);
    out.append(&mut copy);
    assert(out@ =~= old(out)@ + spec_field(bytes@));
}

fn read_u64(bytes: &[u8], pos: usize) -> (read: Option<(u64, usize)>)
    ensures
        match read {
            Some((value, next)) => spec_read_u64(bytes@, pos as int) == Some((value, next as int)),
            None => spec_read_u64(bytes@, pos as int) is None,
        },
{
    if pos > bytes.len() || bytes.len() - pos < 8 {
        None
    } else {
        let part = slice_subrange(bytes, pos, pos + 8);
        Some((u64_from_le_bytes(part), pos + 8))
    }
}

fn read_field(bytes: &[u8], pos: usize) -> (read: Option<(Vec<u8>, usize)>)
    ensures
        match read {
            Some((field, next)) => spec_read_field(bytes@, pos as int) == Some(
                (field@, next as int),
            ),
            None => spec_read_field(bytes@, pos as int) is None,
        },
{
    match read_u64(bytes, pos) {
        Some((len, start)) => {
            if len > (bytes.len() - start) as u64 {
                None
            } else {
                let end: usize = start + len as usize;
                Some((slice_to_vec(slice_subrange(bytes, start, end)), end))
            }
        },
        None => None,
    }
}

/// The bytes under which a link is stored.
pub fn encode_link(link: &Link) -> (bytes: Vec<u8>)
    ensures
        bytes@ == spec_encode_link(link@),
        link_fits(link@),
{
    let mut out: Vec<u8> = Vec::new();
    put_u64(&mut out, link.id);
    put_u64(&mut out, link.created_at as u64);
    put_u64(&mut out, link.updated_at as u64);
    put_field(&mut out, link.key.as_slice());
    put_field(&mut out, link.owner_id.as_slice());
    let url = link.original_url.as_str().as_bytes();
    put_field(&mut out, url);
    proof {
        let lengths = (link.key.len(), link.owner_id.len(), url.len());
        assert(out@ =~= spec_encode_link(link@));
    }
    out
}

/// The link that `bytes` encode, if they encode one.
pub fn decode_link(bytes: &[u8]) -> (link: Option<Link>)
    ensures
        match link {
            Some(found) => spec_decode_link(bytes@) == Some(found@),
            None => spec_decode_link(bytes@) is None,
        },
{
    let (id, p1) = match read_u64(bytes, 0) {
        Some(read) => read,
        None => return None,
    };
    let (created, p2) = match read_u64(bytes, p1) {
        Some(read) => read,
        None => return None,
    };
    let (updated, p3) = match read_u64(bytes, p2) {
        Some(read) => read,
        None => return None,
    };
    let (key, p4) = match read_field(bytes, p3) {
        Some(read) => read,
        None => return None,
    };
    let (owner_id, p5) = match read_field(bytes, p4) {
        Some(read) => read,
        None => return None,
    };
    let (url, p6) = match read_field(bytes, p5) {
        Some(read) => read,
        None => return None,
    };
    if p6 != bytes.len() {
        return None;
    }
    match text_from_utf8(url) {
        Some(original_url) => Some(
            Link {
                id,
                key,
                original_url,
                owner_id,
                created_at: created as i64,
                updated_at: updated as i64,
            },
        ),
        None => None,
    }
}

/// The bytes under which a user is stored.
pub fn encode_user(user: &User) -> (bytes: Vec<u8>)
    ensures
        bytes@ == spec_encode_user(user@),
        user_fits(user@),
{
    let mut out: Vec<u8> = Vec::new();
    put_field(&mut out, user.id.as_slice());
    put_u64(&mut out, user.links_ids.len() as u64);
    let ghost head = out@;
    let mut i: usize = 0;
    while i < user.links_ids.len()
        invariant
            i <= user.links_ids.len(),
            out@ == head + spec_ids(user.links_ids@.take(i as int)),
        decreases user.links_ids.len() - i,
    {
        put_u64(&mut out, user.links_ids[i]);
        proof {
            let next = user.links_ids@.take(i + 1);
            assert(next.drop_last() =~= user.links_ids@.take(i as int));
            assert(out@ =~= head + spec_ids(next));
        }
        i += 1;
    }
    proof {
        let lengths = (user.id.len(), user.links_ids.len());
        assert(user.links_ids@.take(i as int) =~= user.links_ids@);
    }
    out
}

/// The user that `bytes` encode, if they encode one.
pub fn decode_user(bytes: &[u8]) -> (user: Option<User>)
    ensures
        match user {
            Some(found) => spec_decode_user(bytes@) == Some(found@),
            None => spec_decode_user(bytes@) is None,
        },
{
    let (id, p1) = match read_field(bytes, 0) {
        Some(read) => read,
        None => return None,
    };
    let (count, p2) = match read_u64(bytes, p1) {
        Some(read) => read,
        None => return None,
    };
    let rest: usize = bytes.len() - p2;
    if rest % 8 != 0 || (rest / 8) as u64 != count {
        return None;
    }
    let mut links_ids: Vec<u64> = Vec::new();
    let mut i: usize = 0;
    while i < rest / 8
        invariant
            i <= rest / 8,
            rest % 8 == 0,
            rest == bytes.len() - p2,
            p2 <= bytes.len(),
            links_ids@ =~= spec_read_ids(bytes@, p2 as int, i as int),
        decreases rest / 8 - i,
    {
        let at: usize = p2 + 8 * i;
        let part = slice_subrange(bytes, at, at + 8);
        links_ids.push(u64_from_le_bytes(part));
        i += 1;
    }
    Some(User { id, links_ids })
}

/// An entity that a repository can store: it has a byte format, and
/// decoding what was encoded gives it back.
pub trait Entity: View + Sized {
    spec fn spec_encode(value: Self::V) -> Seq<u8>;

    spec fn spec_decode(bytes: Seq<u8>) -> Option<Self::V>;

    /// What the format can hold.
    spec fn fits(value: Self::V) -> bool;

    fn encode(&self) -> (bytes: Vec<u8>)
        ensures
            bytes@ == Self::spec_encode(self@),
            Self::fits(self@),
    ;

    fn decode(bytes: &[u8]) -> (entity: Option<Self>)
        ensures
            match entity {
                Some(found) => Self::spec_decode(bytes@) == Some(found@),
                None => Self::spec_decode(bytes@) is None,
            },
    ;

    proof fn round_trip(value: Self::V)
        requires
            Self::fits(value),
        ensures
            Self::spec_decode(Self::spec_encode(value)) == Some(value),
    ;
}

impl Entity for Link {
    open spec fn spec_encode(value: LinkView) -> Seq<u8> {
        spec_encode_link(value)
    }

    open spec fn spec_decode(bytes: Seq<u8>) -> Option<LinkView> {
        spec_decode_link(bytes)
    }

    open spec fn fits(value: LinkView) -> bool {
        link_fits(value)
    }

    fn encode(&self) -> (bytes: Vec<u8>) {
        encode_link(self)
    }

    fn decode(bytes: &[u8]) -> (entity: Option<Link>) {
        decode_link(bytes)
    }

    proof fn round_trip(value: LinkView) {
        lemma_link_round_trip(value);
    }
}

impl Entity for User {
    open spec fn spec_encode(value: UserView) -> Seq<u8> {
        spec_encode_user(value)
    }

    open spec fn spec_decode(bytes: Seq<u8>) -> Option<UserView> {
        spec_decode_user(bytes)
    }

    open spec fn fits(value: UserView) -> bool {
        user_fits(value)
    }

    fn encode(&self) -> (bytes: Vec<u8>) {
        encode_user(self)
    }

    fn decode(bytes: &[u8]) -> (entity: Option<User>) {
        decode_user(bytes)
    }

    proof fn round_trip(value: UserView) {
        lemma_user_round_trip(value);
    }
}

} // verus!

//! Reading the store's reply to a search.
//!
//! A reply is a list. Its first element is a header, the number of matches,
//! and is passed over. After it come the hits, nearest first. A hit is a list
//! of fields, a name and then its value, again and again; the store may put
//! the hit's key before the list. Nothing of this shape is taken on trust.

use crate::error::MemoryError;
use crate::models::{Hit, RawValue, RedisearchResult};
use vstd::prelude::*;
use vstd::slice::slice_to_vec;
use vstd::string::{StringExecFns, StringSliceAdditionalSpecFns};
use vstd::utf8::{
    decode_utf8, encode_utf8, encode_utf8_decode_utf8, encode_utf8_valid_utf8, valid_utf8,
};

verus! {

/// `v` is a list of further values.
pub open spec fn is_list(v: RawValue) -> bool {
    v is Bulk
}

/// The bytes of a byte string; nothing for any other value.
pub open spec fn bytes_of(v: RawValue) -> Seq<u8> {
    match v {
        RawValue::Data(bytes) => bytes@,
        _ => Seq::empty(),
    }
}

/// The lists among `items`, in order.
pub open spec fn lists_in(items: Seq<RawValue>) -> Seq<Seq<RawValue>>
    decreases items.len(),
{
    if items.len() == 0 {
        Seq::empty()
    } else {
        let before = lists_in(items.drop_last());
        match items.last() {
            RawValue::Bulk(fields) => before.push(fields@),
            _ => before,
        }
    }
}

/// Every element that is not a list stands right before one: it is the key
/// of the hit that follows it.
pub open spec fn grouped(items: Seq<RawValue>) -> bool {
    forall|p: int|
        0 <= p < items.len() && !is_list(#[trigger] items[p]) ==> p + 1 < items.len() && is_list(
            items[p + 1],
        )
}

/// The value that a field list gives for `name`: that of the last field so
/// named, and nothing where no field is.
pub open spec fn field(fields: Seq<RawValue>, name: Seq<u8>) -> Seq<u8>
    decreases fields.len(),
{
    if fields.len() < 2 {
        Seq::empty()
    } else if bytes_of(fields[fields.len() - 2]) == name {
        bytes_of(fields[fields.len() - 1])
    } else {
        field(fields.take(fields.len() - 2), name)
    }
}

/// A field list that can be read: names and values pair up, each of them is
/// a byte string, and the three values looked for are text.
pub open spec fn well_formed_hit(fields: Seq<RawValue>) -> bool {
    &&& fields.len() % 2 == 0
    &&& forall|i: int| 0 <= i < fields.len() ==> (#[trigger] fields[i]) is Data
    &&& valid_utf8(field(fields, encode_utf8("role"@)))
    &&& valid_utf8(field(fields, encode_utf8("content"@)))
    &&& valid_utf8(field(fields, encode_utf8("dist"@)))
}

/// What a field list says: its `role`, `content` and `dist`, each empty where
/// the list has no such field.
pub open spec fn hit_of(fields: Seq<RawValue>) -> Hit {
    Hit {
        role: decode_utf8(field(fields, encode_utf8("role"@))),
        content: decode_utf8(field(fields, encode_utf8("content"@))),
        dist: decode_utf8(field(fields, encode_utf8("dist"@))),
    }
}

/// What follows the header of a reply; nothing where the reply is no list or
/// an empty one.
pub open spec fn after_header(reply: RawValue) -> Seq<RawValue> {
    match reply {
        RawValue::Bulk(items) => if items@.len() == 0 {
            Seq::empty()
        } else {
            items@.skip(1)
        },
        _ => Seq::empty(),
    }
}

/// The field lists of a reply's hits, in the order of the reply.
pub open spec fn hit_lists(reply: RawValue) -> Seq<Seq<RawValue>> {
    lists_in(after_header(reply))
}

/// A reply that can be read: a list, empty or led by a header that is no
/// list, whose other elements group into hits that can be read.
pub open spec fn well_formed_reply(reply: RawValue) -> bool {
    match reply {
        RawValue::Bulk(items) => items@.len() > 0 ==> {
            &&& !is_list(items@[0])
            &&& grouped(after_header(reply))
            &&& forall|k: int|
                0 <= k < hit_lists(reply).len() ==> well_formed_hit(#[trigger] hit_lists(reply)[k])
        },
        _ => false,
    }
}

/// The lists among the first `m` elements are the first of the lists among all.
pub proof fn lists_in_prefix(items: Seq<RawValue>, m: int)
    requires
        0 <= m <= items.len(),
    ensures
        lists_in(items.take(m)).len() <= lists_in(items).len(),
        lists_in(items.take(m)) == lists_in(items).take(lists_in(items.take(m)).len() as int),
    decreases items.len(),
{
    if m == items.len() {
        assert(items.take(m) =~= items);
        assert(lists_in(items).take(lists_in(items).len() as int) =~= lists_in(items));
    } else {
        assert(items.drop_last().take(m) =~= items.take(m));
        lists_in_prefix(items.drop_last(), m);
        let shorter = lists_in(items.drop_last());
        let head = lists_in(items.take(m));
        assert(head =~= lists_in(items).take(head.len() as int));
    }
}

/// With one more element taken, the lists grow by that element if it is a list.
proof fn lists_in_step(items: Seq<RawValue>, m: int)
    requires
        0 <= m < items.len(),
    ensures
        lists_in(items.take(m + 1)) == match items[m] {
            RawValue::Bulk(fields) => lists_in(items.take(m)).push(fields@),
            _ => lists_in(items.take(m)),
        },
{
    assert(items.take(m + 1).drop_last() =~= items.take(m));
    assert(items.take(m + 1).last() == items[m]);
}

/// With one more pair taken, the value for `name` is that of the pair if it
/// is so named, and else what it was.
proof fn field_step(fields: Seq<RawValue>, i: int, name: Seq<u8>)
    requires
        0 <= i,
        i + 2 <= fields.len(),
    ensures
        field(fields.take(i + 2), name) == if bytes_of(fields[i]) == name {
            bytes_of(fields[i + 1])
        } else {
            field(fields.take(i), name)
        },
{
    let taken = fields.take(i + 2);
    assert(taken[taken.len() - 2] == fields[i]);
    assert(taken[taken.len() - 1] == fields[i + 1]);
    assert(taken.take(taken.len() - 2) =~= fields.take(i));
}

/// Whether two byte strings are the same.
fn same_bytes(a: &[u8], b: &[u8]) -> (same: bool)
    ensures
        same == (a@ == b@),
{
    if a.len() != b.len() {
        return false;
    }
    let mut i: usize = 0;
    while i < a.len()
        invariant
            a@.len() == b@.len(),
            i <= a@.len(),
            forall|j: int| 0 <= j < i ==> a@[j] == b@[j],
        decreases a.len() - i,
    {
        if a[i] != b[i] {
            return false;
        }
        i = i + 1;
    }
    proof {
        assert(a@ =~= b@);
    }
    true
}

/// Reads bytes as text.
///
/// Trusted: calls `std::str::from_utf8`, which gives the bytes back as a
/// string slice when they are valid UTF-8 and an error when they are not.
#[verifier::external_body]
fn utf8_text(bytes: &[u8]) -> (text: Option<&str>)
    ensures
        match text {
            Some(s) => valid_utf8(bytes@) && s.spec_bytes() == bytes@,
            None => !valid_utf8(bytes@),
        },
{
    std::str::from_utf8(bytes).ok()
}

/// Reads bytes as an owned text; `None` exactly when they are not UTF-8.
fn text_of(bytes: &[u8]) -> (text: Option<String>)
    ensures
        match text {
            Some(s) => valid_utf8(bytes@) && s@ == decode_utf8(bytes@),
            None => !valid_utf8(bytes@),
        },
{
    match utf8_text(bytes) {
        Some(s) => {
            proof {
                encode_utf8_decode_utf8(s@);
            }
            Some(String::from_str(s))
        },
        None => None,
    }
}

/// Reads one hit from its field list.
///
/// Fails with `ParseError` exactly when the list cannot be read: a name
/// without a value, a name or value that is no byte string, or a `role`,
/// `content` or `dist` that is no text.
pub fn parse_hit(fields: &Vec<RawValue>) -> (r: Result<RedisearchResult, MemoryError>)
    ensures
        match r {
            Ok(hit) => well_formed_hit(fields@) && hit@ == hit_of(fields@),
            Err(e) => !well_formed_hit(fields@) && e == MemoryError::ParseError,
        },
{
    let n = fields.len();
    if n % 2 != 0 {
        return Err(MemoryError::ParseError);
    }
    let mut role: Vec<u8> = Vec::new();
    let mut content: Vec<u8> = Vec::new();
    let mut dist: Vec<u8> = Vec::new();
    let mut i: usize = 0;
    while i < n
        invariant
            n == fields@.len(),
            n % 2 == 0,
            i % 2 == 0,
            i <= n,
            forall|j: int| 0 <= j < i ==> (#[trigger] fields@[j]) is Data,
            role@ == field(fields@.take(i as int), encode_utf8("role"@)),
            content@ == field(fields@.take(i as int), encode_utf8("content"@)),
            dist@ == field(fields@.take(i as int), encode_utf8("dist"@)),
        decreases n - i,
    {
        let name = match &fields[i] {
            RawValue::Data(bytes) => bytes,
            _ => {
                return Err(MemoryError::ParseError);
            },
        };
        let value = match &fields[i + 1] {
            RawValue::Data(bytes) => bytes,
            _ => {
                return Err(MemoryError::ParseError);
            },
        };
        proof {
            field_step(fields@, i as int, encode_utf8("role"@));
            field_step(fields@, i as int, encode_utf8("content"@));
            field_step(fields@, i as int, encode_utf8("dist"@));
        }
        if same_bytes(name.as_slice(), "role".as_bytes()) {
            role = slice_to_vec(value.as_slice());
        }
        if same_bytes(name.as_slice(), "content".as_bytes()) {
            content = slice_to_vec(value.as_slice());
        }
        if same_bytes(name.as_slice(), "dist".as_bytes()) {
            dist = slice_to_vec(value.as_slice());
        }
        i = i + 2;
    }
    proof {
        assert(fields@.take(n as int) =~= fields@);
    }
    let role = match text_of(role.as_slice()) {
        Some(text) => text,
        None => {
            return Err(MemoryError::ParseError);
        },
    };
    let content = match text_of(content.as_slice()) {
        Some(text) => text,
        None => {
            return Err(MemoryError::ParseError);
        },
    };
    let dist = match text_of(dist.as_slice()) {
        Some(text) => text,
        None => {
            return Err(MemoryError::ParseError);
        },
    };
    Ok(RedisearchResult { role, content, dist })
}

/// Reads the ranked hits from the store's reply to a search, in the order of
/// the reply.
///
/// Fails with `ParseError` exactly when the reply cannot be read; a reply
/// that holds its header and nothing else gives no hits and no error.
pub fn parse_redisearch_response(response: &RawValue) -> (r: Result<
    Vec<RedisearchResult>,
    MemoryError,
>)
    ensures
        match r {
            Ok(results) => {
                &&& well_formed_reply(*response)
                &&& results@.len() == hit_lists(*response).len()
                &&& forall|k: int|
                    0 <= k < results@.len() ==> (#[trigger] results@[k])@ == hit_of(
                        hit_lists(*response)[k],
                    )
            },
            Err(e) => !well_formed_reply(*response) && e == MemoryError::ParseError,
        },
{
    let items = match response {
        RawValue::Bulk(items) => items,
        _ => {
            return Err(MemoryError::ParseError);
        },
    };
    let mut results: Vec<RedisearchResult> = Vec::new();
    let n = items.len();
    if n == 0 {
        return Ok(results);
    }
    match &items[0] {
        RawValue::Bulk(_) => {
            return Err(MemoryError::ParseError);
        },
        _ => {},
    }
    let ghost body = after_header(*response);
    let mut p: usize = 1;
    while p < n
        invariant
            1 <= p <= n,
            n == items@.len(),
            *response == RawValue::Bulk(*items),
            body == items@.skip(1),
            body == after_header(*response),
            forall|q: int|
                0 <= q < p - 1 && !is_list(#[trigger] body[q]) ==> q + 1 < body.len() && is_list(
                    body[q + 1],
                ),
            results@.len() == lists_in(body.take(p - 1)).len(),
            forall|k: int|
                0 <= k < results@.len() ==> well_formed_hit(
                    #[trigger] lists_in(body.take(p - 1))[k],
                ),
            forall|k: int|
                0 <= k < results@.len() ==> (#[trigger] results@[k])@ == hit_of(
                    lists_in(body.take(p - 1))[k],
                ),
        decreases n - p,
    {
        proof {
            lists_in_step(body, p - 1);
            lists_in_prefix(body, p as int);
            assert(body[p - 1] == items@[p as int]);
        }
        match &items[p] {
            RawValue::Bulk(fields) => {
                match parse_hit(fields) {
                    Ok(hit) => {
                        results.push(hit);
                    },
                    Err(e) => {
                        proof {
                            let k = lists_in(body.take(p - 1)).len() as int;
                            assert(lists_in(body.take(p as int))[k] == fields@);
                            assert(hit_lists(*response)[k] == fields@);
                        }
                        return Err(e);
                    },
                }
            },
            _ => {
                if p + 1 >= n {
                    proof {
                        assert(!is_list(body[p - 1]));
                    }
                    return Err(MemoryError::ParseError);
                }
                match &items[p + 1] {
                    RawValue::Bulk(_) => {},
                    _ => {
                        proof {
                            assert(!is_list(body[p - 1]));
                            assert(body[p as int] == items@[p + 1]);
                        }
                        return Err(MemoryError::ParseError);
                    },
                }
                proof {
                    assert(body[p as int] == items@[p + 1]);
                }
            },
        }
        p = p + 1;
    }
    proof {
        assert(body.take(n - 1) =~= body);
    }
    Ok(results)
}

/// A reply that holds at most its header has no hits, and is no error: the
/// search of a session without records gives nothing.
pub proof fn header_alone_has_no_hits(reply: RawValue)
    requires
        reply matches RawValue::Bulk(items) && (items@.len() == 0 || (items@.len() == 1
            && !is_list(items@[0]))),
    ensures
        well_formed_reply(reply),
        hit_lists(reply).len() == 0,
{
    assert(after_header(reply) =~= Seq::empty());
}

/// A hit whose field list has a name without a value makes the whole reply
/// unreadable: it is refused, not cut short.
pub proof fn odd_field_list_is_refused(reply: RawValue, k: int)
    requires
        0 <= k < hit_lists(reply).len(),
        hit_lists(reply)[k].len() % 2 != 0,
    ensures
        !well_formed_reply(reply),
{
    assert(!well_formed_hit(hit_lists(reply)[k]));
}

/// The hits keep the rank that the store gave them: where the distances in
/// the reply ascend, under whatever order distances have, so do those of the
/// hits read from it.
pub proof fn rank_is_kept(
    reply: RawValue,
    results: Seq<Hit>,
    ascending: spec_fn(Seq<char>, Seq<char>) -> bool,
)
    requires
        results.len() == hit_lists(reply).len(),
        forall|k: int| 0 <= k < results.len() ==> #[trigger] results[k] == hit_of(
            hit_lists(reply)[k],
        ),
        forall|i: int, j: int|
            0 <= i <= j < hit_lists(reply).len() ==> ascending(
                hit_of(#[trigger] hit_lists(reply)[i]).dist,
                hit_of(#[trigger] hit_lists(reply)[j]).dist,
            ),
    ensures
        forall|i: int, j: int|
            0 <= i <= j < results.len() ==> ascending(
                (#[trigger] results[i]).dist,
                (#[trigger] results[j]).dist,
            ),
{
    assert forall|i: int, j: int| 0 <= i <= j < results.len() implies ascending(
        (#[trigger] results[i]).dist,
        (#[trigger] results[j]).dist,
    ) by {
        assert(results[i] == hit_of(hit_lists(reply)[i]));
        assert(results[j] == hit_of(hit_lists(reply)[j]));
    }
}

/// The three field names are told apart.
proof fn names_differ()
    ensures
        encode_utf8("role"@) != encode_utf8("content"@),
        encode_utf8("role"@) != encode_utf8("dist"@),
        encode_utf8("content"@) != encode_utf8("dist"@),
{
    reveal_strlit("role");
    reveal_strlit("content");
    reveal_strlit("dist");
    encode_utf8_decode_utf8("role"@);
    encode_utf8_decode_utf8("content"@);
    encode_utf8_decode_utf8("dist"@);
    assert("role"@[0] != "dist"@[0]);
}

/// A hit that gives the `role`, `content` and `dist` fields once each, in
/// that order, as the bytes of three texts, is read as those texts.
pub proof fn stored_fields_read_back(
    fields: Seq<RawValue>,
    role: Seq<char>,
    content: Seq<char>,
    dist: Seq<char>,
)
    requires
        fields.len() == 6,
        forall|i: int| 0 <= i < 6 ==> (#[trigger] fields[i]) is Data,
        bytes_of(fields[0]) == encode_utf8("role"@),
        bytes_of(fields[1]) == encode_utf8(role),
        bytes_of(fields[2]) == encode_utf8("content"@),
        bytes_of(fields[3]) == encode_utf8(content),
        bytes_of(fields[4]) == encode_utf8("dist"@),
        bytes_of(fields[5]) == encode_utf8(dist),
    ensures
        well_formed_hit(fields),
        hit_of(fields) == (Hit { role, content, dist }),
{
    names_differ();
    field_step(fields, 0, encode_utf8("role"@));
    field_step(fields, 2, encode_utf8("role"@));
    field_step(fields, 4, encode_utf8("role"@));
    field_step(fields, 0, encode_utf8("content"@));
    field_step(fields, 2, encode_utf8("content"@));
    field_step(fields, 4, encode_utf8("content"@));
    field_step(fields, 0, encode_utf8("dist"@));
    field_step(fields, 2, encode_utf8("dist"@));
    field_step(fields, 4, encode_utf8("dist"@));
    assert(fields.take(6) =~= fields);
    encode_utf8_valid_utf8(role);
    encode_utf8_valid_utf8(content);
    encode_utf8_valid_utf8(dist);
    encode_utf8_decode_utf8(role);
    encode_utf8_decode_utf8(content);
    encode_utf8_decode_utf8(dist);
}

} // verus!

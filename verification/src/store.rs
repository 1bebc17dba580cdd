//! The commands that the store is sent: one to write a record, one to search
//! a session for the nearest records.

use crate::ids::{key_of, record_key};
use vstd::prelude::*;
use vstd::string::{StringExecFns, StringSliceAdditionalSpecFns};
use vstd::utf8::{encode_utf8, encode_utf8_decode_utf8};

verus! {

#[verifier::external_type_specification]
#[verifier::external_body]
pub struct ExCmd(redis::Cmd);

/// The arguments that a command holds, in order, the command's name first.
pub uninterp spec fn cmd_args(c: redis::Cmd) -> Seq<Seq<u8>>;

/// Starts a command named `name`.
///
/// Trusted: calls `redis::cmd`, which makes an empty command and appends
/// `name` as its first argument, the bytes of the string.
#[verifier::external_body]
fn command(name: &str) -> (c: redis::Cmd)
    ensures
        cmd_args(c) == seq![name.spec_bytes()],
{
    redis::cmd(name)
}

/// Appends one argument holding exactly `bytes`.
///
/// Trusted: calls `redis::Cmd::arg` with a byte slice, which appends the
/// slice as a single argument and leaves the earlier arguments as they are.
#[verifier::external_body]
fn push_arg(c: &mut redis::Cmd, bytes: &[u8])
    ensures
        cmd_args(*final(c)) == cmd_args(*old(c)).push(bytes@),
{
    c.arg(bytes);
}

/// The arguments of the write of one record: a hash under `key` with the
/// fields `session`, `vector`, `content` and `role`.
pub open spec fn write_args(
    key: Seq<char>,
    session: Seq<char>,
    vector: Seq<u8>,
    content: Seq<char>,
    role: Seq<char>,
) -> Seq<Seq<u8>> {
    seq![
        encode_utf8("HSET"@),
        encode_utf8(key),
        encode_utf8("session"@),
        encode_utf8(session),
        encode_utf8("vector"@),
        vector,
        encode_utf8("content"@),
        encode_utf8(content),
        encode_utf8("role"@),
        encode_utf8(role),
    ]
}

/// The filter and ranking expression of a search: records of `session`
/// only, the ten nearest to the vector passed as `$V`, their distance named
/// `dist`.
pub open spec fn knn_query(session: Seq<char>) -> Seq<char> {
    "@session:"@ + session + "=>[KNN 10 @vector $V AS dist]"@
}

/// The arguments of a search of `session` for the records nearest to `vector`.
pub open spec fn search_args(session: Seq<char>, vector: Seq<u8>) -> Seq<Seq<u8>> {
    seq![
        encode_utf8("TFT.SEARCH"@),
        encode_utf8("motorhead"@),
        encode_utf8(knn_query(session)),
        encode_utf8("PARAMS"@),
        encode_utf8("2"@),
        encode_utf8("V"@),
        vector,
        encode_utf8("RETURN"@),
        encode_utf8("3"@),
        encode_utf8("role"@),
        encode_utf8("content"@),
        encode_utf8("dist"@),
        encode_utf8("SORTBY"@),
        encode_utf8("dist"@),
        encode_utf8("DIALECT"@),
        encode_utf8("2"@),
    ]
}

/// The command that writes the record `id` of `session_id`.
pub fn write_command(id: &str, session_id: &str, vector: &[u8], content: &str, role: &str) -> (c:
    redis::Cmd)
    ensures
        cmd_args(c) == write_args(key_of(id@), session_id@, vector@, content@, role@),
{
    let key = record_key(id);
    let mut c = command("HSET");
    push_arg(&mut c, key.as_str().as_bytes());
    push_arg(&mut c, "session".as_bytes());
    push_arg(&mut c, session_id.as_bytes());
    push_arg(&mut c, "vector".as_bytes());
    push_arg(&mut c, vector);
    push_arg(&mut c, "content".as_bytes());
    push_arg(&mut c, content.as_bytes());
    push_arg(&mut c, "role".as_bytes());
    push_arg(&mut c, role.as_bytes());
    proof {
        assert(cmd_args(c) =~= write_args(key_of(id@), session_id@, vector@, content@, role@));
    }
    c
}

/// The command that searches `session_id` for the records nearest to `vector`.
pub fn search_command(session_id: &str, vector: &[u8]) -> (c: redis::Cmd)
    ensures
        cmd_args(c) == search_args(session_id@, vector@),
{
    let mut query = String::from_str("@session:");
    query.append(session_id);
    query.append("=>[KNN 10 @vector $V AS dist]");
    let mut c = command("TFT.SEARCH");
    push_arg(&mut c, "motorhead".as_bytes());
    push_arg(&mut c, query.as_str().as_bytes());
    push_arg(&mut c, "PARAMS".as_bytes());
    push_arg(&mut c, "2".as_bytes());
    push_arg(&mut c, "V".as_bytes());
    push_arg(&mut c, vector);
    push_arg(&mut c, "RETURN".as_bytes());
    push_arg(&mut c, "3".as_bytes());
    push_arg(&mut c, "role".as_bytes());
    push_arg(&mut c, "content".as_bytes());
    push_arg(&mut c, "dist".as_bytes());
    push_arg(&mut c, "SORTBY".as_bytes());
    push_arg(&mut c, "dist".as_bytes());
    push_arg(&mut c, "DIALECT".as_bytes());
    push_arg(&mut c, "2".as_bytes());
    proof {
        assert(cmd_args(c) =~= search_args(session_id@, vector@));
    }
    c
}

/// Texts with the same bytes are the same text.
proof fn same_bytes_same_text(a: Seq<char>, b: Seq<char>)
    requires
        encode_utf8(a) == encode_utf8(b),
    ensures
        a == b,
{
    encode_utf8_decode_utf8(a);
    encode_utf8_decode_utf8(b);
}

/// The expression of a search names its session and no other: two
/// sessions that are searched with the same expression are one session.
pub proof fn query_names_its_session(a: Seq<char>, b: Seq<char>)
    requires
        knn_query(a) == knn_query(b),
    ensures
        a == b,
{
    let lead = "@session:"@;
    let tail = "=>[KNN 10 @vector $V AS dist]"@;
    assert(knn_query(a).len() == lead.len() + a.len() + tail.len());
    assert(knn_query(b).len() == lead.len() + b.len() + tail.len());
    assert forall|i: int| 0 <= i < a.len() implies a[i] == b[i] by {
        assert(knn_query(a)[lead.len() + i] == a[i]);
        assert(knn_query(b)[lead.len() + i] == b[i]);
    }
    assert(a =~= b);
}

/// A search command is scoped to one session: commands that agree were
/// made for the same session and the same vector.
pub proof fn search_names_its_session(a: Seq<char>, va: Seq<u8>, b: Seq<char>, vb: Seq<u8>)
    requires
        search_args(a, va) == search_args(b, vb),
    ensures
        a == b,
        va == vb,
{
    assert(search_args(a, va)[2] == search_args(b, vb)[2]);
    assert(search_args(a, va)[6] == search_args(b, vb)[6]);
    same_bytes_same_text(knn_query(a), knn_query(b));
    query_names_its_session(a, b);
}

/// A write carries its session as the value of the field `session`, and
/// that value belongs to no other session.
pub proof fn write_names_its_session(
    key: Seq<char>,
    session: Seq<char>,
    vector: Seq<u8>,
    content: Seq<char>,
    role: Seq<char>,
    other: Seq<char>,
)
    ensures
        write_args(key, session, vector, content, role).len() == 10,
        write_args(key, session, vector, content, role)[2] == encode_utf8("session"@),
        write_args(key, session, vector, content, role)[3] == encode_utf8(session),
        encode_utf8(other) == write_args(key, session, vector, content, role)[3] ==> other
            == session,
{
    if encode_utf8(other) == encode_utf8(session) {
        same_bytes_same_text(other, session);
    }
}

} // verus!

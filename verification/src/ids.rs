//! Record identifiers and the keys that records are stored under.

use vstd::prelude::*;
use vstd::string::StringExecFns;

verus! {

/// A character that an identifier may hold: a letter, a digit, `_` or `-`.
pub open spec fn is_id_char(c: char) -> bool {
    ||| 'a' <= c <= 'z'
    ||| 'A' <= c <= 'Z'
    ||| '0' <= c <= '9'
    ||| c == '_'
    ||| c == '-'
}

/// The shape of every identifier: 21 characters that a URL can carry as they are.
pub open spec fn is_record_id(id: Seq<char>) -> bool {
    &&& id.len() == 21
    &&& forall|i: int| 0 <= i < id.len() ==> is_id_char(#[trigger] id[i])
}

/// The key of the record with identifier `id`: the namespace, a colon, the identifier.
pub open spec fn key_of(id: Seq<char>) -> Seq<char> {
    "motorhead:"@ + id
}

/// Draws a fresh identifier.
///
/// Trusted: calls `nanoid::format` with the generator `nanoid::rngs::default`,
/// the alphabet `nanoid::alphabet::SAFE` and size 21, that is what
/// `nanoid::nanoid!()` stands for. Every character it pushes is taken from
/// the alphabet, and it returns once the identifier holds 21 of them. Which
/// identifier comes back is left to chance: two calls may or may not differ.
/// The generator is seeded from the operating system and panics where the
/// system has no entropy to give.
#[verifier::external_body]
pub(crate) fn fresh_id() -> (id: String)
    ensures
        is_record_id(id@),
{
    nanoid::format(nanoid::rngs::default, &nanoid::alphabet::SAFE, 21)
}

/// The key under which the record with identifier `id` is stored.
pub fn record_key(id: &str) -> (key: String)
    ensures
        key@ == key_of(id@),
{
    let mut key = String::from_str("motorhead:");
    key.append(id);
    key
}

} // verus!

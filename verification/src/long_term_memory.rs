//! The two pipelines: indexing a batch of messages, and searching a session.
//!
//! Each pipeline asks the embedding provider once and then talks to the
//! store. Asking and talking are the caller's part. What is decided here is
//! what to ask for, whether the provider's answer can be used, which
//! commands the store is sent, and how a run of writes ends.

use crate::codec::{encode, encoded};
use crate::error::MemoryError;
use crate::gateway::{answers, check_embeddings, every_text_is_answered};
use crate::ids::{fresh_id, is_record_id, key_of};
use crate::models::{Embedding, MemoryMessage};
use crate::store::{cmd_args, search_args, search_command, write_args, write_command};
use vstd::prelude::*;
use vstd::utf8::encode_utf8;

verus! {

/// `args` writes `message`, with `vector` as its embedding, as a record of
/// `session` under the key of some identifier.
pub open spec fn is_write_of(
    args: Seq<Seq<u8>>,
    session: Seq<char>,
    message: MemoryMessage,
    vector: Seq<u32>,
) -> bool {
    exists|id: Seq<char>|
        #[trigger] is_record_id(id) && args == write_args(
            key_of(id),
            session,
            encoded(vector),
            message.content@,
            message.role@,
        )
}

/// The texts to embed for a search: the query alone, as a batch of one.
pub fn search_inputs(query: String) -> (texts: Vec<String>)
    ensures
        texts@.len() == 1,
        texts@[0]@ == query@,
{
    let mut texts: Vec<String> = Vec::new();
    texts.push(query);
    texts
}

/// Plans the indexing of `messages` into `session_id`, given the provider's
/// answer to the request for their contents.
///
/// The answer is used exactly when it has one entry for each message.
/// Then there is one write for each entry, in the order of the answer: a
/// record under a fresh key that holds the session, the entry's vector as
/// bytes, and the content and role of the message that the entry is
/// labelled with. Any other answer is a `ProviderError`, and nothing is to
/// be written.
pub fn index_messages(
    messages: Vec<MemoryMessage>,
    session_id: String,
    embeddings: Vec<Embedding>,
) -> (r: Result<Vec<redis::Cmd>, MemoryError>)
    ensures
        match r {
            Ok(writes) => {
                &&& answers(embeddings@, messages@.len())
                &&& writes@.len() == messages@.len()
                &&& forall|k: int|
                    0 <= k < writes@.len() ==> is_write_of(
                        cmd_args(#[trigger] writes@[k]),
                        session_id@,
                        messages@[embeddings@[k].index as int],
                        embeddings@[k].embedding@,
                    )
            },
            Err(e) => !answers(embeddings@, messages@.len()) && e == MemoryError::ProviderError,
        },
{
    match check_embeddings(&embeddings, messages.len()) {
        Ok(()) => {},
        Err(e) => {
            return Err(e);
        },
    }
    let mut writes: Vec<redis::Cmd> = Vec::new();
    let mut k: usize = 0;
    while k < embeddings.len()
        invariant
            answers(embeddings@, messages@.len()),
            k <= embeddings@.len(),
            writes@.len() == k,
            forall|j: int|
                0 <= j < k ==> is_write_of(
                    cmd_args(#[trigger] writes@[j]),
                    session_id@,
                    messages@[embeddings@[j].index as int],
                    embeddings@[j].embedding@,
                ),
        decreases embeddings.len() - k,
    {
        let entry = &embeddings[k];
        let message = &messages[entry.index as usize];
        let id = fresh_id();
        let vector = encode(entry.embedding.as_slice());
        let write = write_command(
            id.as_str(),
            session_id.as_str(),
            vector.as_slice(),
            message.content.as_str(),
            message.role.as_str(),
        );
        proof {
            assert(is_record_id(id@));
            assert(is_write_of(cmd_args(write), session_id@, *message, entry.embedding@));
        }
        writes.push(write);
        k = k + 1;
    }
    Ok(writes)
}

/// Plans the search of `session_id`, given the provider's answer to the
/// request for the query.
///
/// The answer is used exactly when it is the one entry for the one text
/// asked. Then the command searches the session for the ten records
/// nearest to the entry's vector. Any other answer is a `ProviderError`.
pub fn search_messages(session_id: String, embeddings: Vec<Embedding>) -> (r: Result<
    redis::Cmd,
    MemoryError,
>)
    ensures
        match r {
            Ok(search) => {
                &&& answers(embeddings@, 1)
                &&& cmd_args(search) == search_args(
                    session_id@,
                    encoded(embeddings@[0].embedding@),
                )
            },
            Err(e) => !answers(embeddings@, 1) && e == MemoryError::ProviderError,
        },
{
    match check_embeddings(&embeddings, 1) {
        Ok(()) => {},
        Err(e) => {
            return Err(e);
        },
    }
    let vector = encode(embeddings[0].embedding.as_slice());
    Ok(search_command(session_id.as_str(), vector.as_slice()))
}

/// A write of a message says what it is for: its arguments name the
/// session, carry the vector as four bytes for each component, and give the
/// message's content and role as they are.
pub proof fn write_says_what_it_stores(
    args: Seq<Seq<u8>>,
    session: Seq<char>,
    message: MemoryMessage,
    vector: Seq<u32>,
)
    requires
        is_write_of(args, session, message, vector),
    ensures
        args.len() == 10,
        args[0] == encode_utf8("HSET"@),
        args[2] == encode_utf8("session"@),
        args[3] == encode_utf8(session),
        args[4] == encode_utf8("vector"@),
        args[5] == encoded(vector),
        args[5].len() == 4 * vector.len(),
        args[6] == encode_utf8("content"@),
        args[7] == encode_utf8(message.content@),
        args[8] == encode_utf8("role"@),
        args[9] == encode_utf8(message.role@),
{
}

/// Indexing leaves no message out: where the writes are those planned for
/// an accepted answer, every message has a write that stores it, in the
/// place where the answer has the entry labelled with the message's position.
pub proof fn every_message_is_written(
    messages: Seq<MemoryMessage>,
    session: Seq<char>,
    embeddings: Seq<Embedding>,
    writes: Seq<Seq<Seq<u8>>>,
    at: int,
)
    requires
        answers(embeddings, messages.len()),
        writes.len() == messages.len(),
        forall|k: int|
            0 <= k < writes.len() ==> is_write_of(
                #[trigger] writes[k],
                session,
                messages[embeddings[k].index as int],
                embeddings[k].embedding@,
            ),
        0 <= at < messages.len(),
    ensures
        exists|k: int|
            0 <= k < writes.len() && embeddings[k].index == at && is_write_of(
                #[trigger] writes[k],
                session,
                messages[at],
                embeddings[k].embedding@,
            ),
{
    every_text_is_answered(embeddings, messages.len(), at);
    let k = choose|k: int| 0 <= k < embeddings.len() && (#[trigger] embeddings[k]).index == at;
    assert(is_write_of(
        writes[k],
        session,
        messages[embeddings[k].index as int],
        embeddings[k].embedding@,
    ));
}

} // verus!

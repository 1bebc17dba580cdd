//! What a well-formed answer of the embedding provider looks like.
//!
//! The provider answers a batch of `n` texts with `n` entries, one per text,
//! each labelled with the position of its text. The entries may come in any
//! order, so callers go by the label and never by the place in the answer.

use crate::error::MemoryError;
use crate::models::{Embedding, MemoryMessage};
use vstd::prelude::*;
use vstd::set_lib::{lemma_int_range, lemma_len_subset, lemma_subset_equality, set_int_range};

verus! {

/// The model that every embedding is requested from.
pub const EMBEDDING_MODEL: &'static str = "text-embedding-ada-002";

/// `entries` answers a request of `n` texts: one entry for each position.
pub open spec fn answers(entries: Seq<Embedding>, n: nat) -> bool {
    &&& entries.len() == n
    &&& forall|k: int| 0 <= k < entries.len() ==> (#[trigger] entries[k]).index < n
    &&& forall|j: int, k: int|
        0 <= j < k < entries.len() ==> (#[trigger] entries[j]).index != (
        #[trigger] entries[k]).index
}

/// The texts of a batch of messages, in order.
pub open spec fn contents(messages: Seq<MemoryMessage>) -> Seq<Seq<char>> {
    Seq::new(messages.len(), |i: int| messages[i].content@)
}

/// The texts to embed for a batch of messages: their contents, in order, as
/// one request.
pub fn embedding_inputs(messages: &Vec<MemoryMessage>) -> (texts: Vec<String>)
    ensures
        texts@.len() == messages@.len(),
        forall|i: int| 0 <= i < texts@.len() ==> (#[trigger] texts@[i])@ == messages@[i].content@,
{
    let mut texts: Vec<String> = Vec::new();
    let mut i: usize = 0;
    while i < messages.len()
        invariant
            i <= messages.len(),
            texts@.len() == i,
            forall|j: int| 0 <= j < i ==> (#[trigger] texts@[j])@ == messages@[j].content@,
        decreases messages.len() - i,
    {
        texts.push(messages[i].content.clone());
        i = i + 1;
    }
    texts
}

/// Accepts an answer to a request of `n` texts exactly when it has one entry
/// for each position; anything else is a `ProviderError`.
pub fn check_embeddings(entries: &Vec<Embedding>, n: usize) -> (r: Result<(), MemoryError>)
    ensures
        r is Ok <==> answers(entries@, n as nat),
        r is Err ==> r == Err::<(), MemoryError>(MemoryError::ProviderError),
{
    if entries.len() != n {
        return Err(MemoryError::ProviderError);
    }
    let mut seen: Vec<bool> = Vec::new();
    let mut i: usize = 0;
    while i < n
        invariant
            i <= n,
            seen@.len() == i,
            forall|j: int| 0 <= j < i ==> !(#[trigger] seen@[j]),
        decreases n - i,
    {
        seen.push(false);
        i = i + 1;
    }
    let mut k: usize = 0;
    while k < n
        invariant
            k <= n,
            entries@.len() == n,
            seen@.len() == n,
            forall|j: int| 0 <= j < k ==> (#[trigger] entries@[j]).index < n,
            forall|a: int, b: int|
                0 <= a < b < k ==> (#[trigger] entries@[a]).index != (#[trigger] entries@[b]).index,
            forall|p: int|
                0 <= p < n ==> (#[trigger] seen@[p] <==> exists|j: int|
                    0 <= j < k && (#[trigger] entries@[j]).index == p),
        decreases n - k,
    {
        let at = entries[k].index as usize;
        if at >= n {
            return Err(MemoryError::ProviderError);
        }
        if seen[at] {
            proof {
                let j = choose|j: int| 0 <= j < k && (#[trigger] entries@[j]).index == at;
                assert(entries@[j].index == entries@[k as int].index);
            }
            return Err(MemoryError::ProviderError);
        }
        seen.set(at, true);
        proof {
            assert forall|p: int| 0 <= p < n implies (#[trigger] seen@[p] <==> exists|j: int|
                0 <= j < k + 1 && (#[trigger] entries@[j]).index == p) by {
                if p == at {
                    assert(entries@[k as int].index == p);
                } else if seen@[p] {
                    let j = choose|j: int| 0 <= j < k && (#[trigger] entries@[j]).index == p;
                    assert(0 <= j < k + 1 && entries@[j].index == p);
                }
            }
        }
        k = k + 1;
    }
    Ok(())
}

/// An answer that is accepted leaves no text out: every position of the
/// request is the label of an entry, and of one entry only.
pub proof fn every_text_is_answered(entries: Seq<Embedding>, n: nat, at: int)
    requires
        answers(entries, n),
        0 <= at < n,
    ensures
        exists|k: int| 0 <= k < entries.len() && (#[trigger] entries[k]).index == at,
        forall|j: int, k: int|
            0 <= j < entries.len() && 0 <= k < entries.len() && (#[trigger] entries[j]).index == at
                && (#[trigger] entries[k]).index == at ==> j == k,
{
    let labels = Seq::new(entries.len(), |k: int| entries[k].index as int);
    assert(labels.no_duplicates()) by {
        assert forall|i: int, j: int|
            0 <= i < labels.len() && 0 <= j < labels.len() && i != j implies labels[i]
            != labels[j] by {
            if i < j {
                assert(entries[i].index != entries[j].index);
            } else {
                assert(entries[j].index != entries[i].index);
            }
        }
    }
    labels.unique_seq_to_set();
    lemma_int_range(0, n as int);
    assert(labels.to_set().subset_of(set_int_range(0, n as int))) by {
        assert forall|a: int| labels.to_set().contains(a) implies set_int_range(
            0,
            n as int,
        ).contains(a) by {
            let k = choose|k: int| 0 <= k < labels.len() && labels[k] == a;
            assert(entries[k].index < n);
        }
    }
    lemma_len_subset(labels.to_set(), set_int_range(0, n as int));
    lemma_subset_equality(labels.to_set(), set_int_range(0, n as int));
    assert(set_int_range(0, n as int).contains(at));
    assert(labels.to_set().contains(at));
    let k = choose|k: int| 0 <= k < labels.len() && labels[k] == at;
    assert(entries[k].index == at);
    assert forall|j: int, k: int|
        0 <= j < entries.len() && 0 <= k < entries.len() && (#[trigger] entries[j]).index == at
            && (#[trigger] entries[k]).index == at implies j == k by {
        if j < k {
            assert(entries[j].index != entries[k].index);
        } else if k < j {
            assert(entries[k].index != entries[j].index);
        }
    }
}

} // verus!

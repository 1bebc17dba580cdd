//! The values that pass between a caller, the embedding provider and the store.

use vstd::prelude::*;

verus! {

/// One chat message: who spoke, and what was said.
#[derive(Debug, Clone, PartialEq, Eq)]
pub struct MemoryMessage {
    pub role: String,
    pub content: String,
}

/// One entry of an embedding provider's answer.
///
/// `index` is the position, in the request, of the text that `embedding`
/// belongs to. Each component of `embedding` is the bit pattern of a 32-bit
/// float.
#[derive(Debug, Clone, PartialEq, Eq)]
pub struct Embedding {
    pub index: u32,
    pub embedding: Vec<u32>,
}

/// What a hit says, as plain text.
pub struct Hit {
    pub role: Seq<char>,
    pub content: Seq<char>,
    pub dist: Seq<char>,
}

/// One ranked hit of a search.
///
/// `dist` is the distance as the store wrote it, a decimal number in text;
/// lower is nearer.
#[derive(Debug, Clone, PartialEq, Eq)]
pub struct RedisearchResult {
    pub role: String,
    pub content: String,
    pub dist: String,
}

impl View for RedisearchResult {
    type V = Hit;

    open spec fn view(&self) -> Hit {
        Hit { role: self.role@, content: self.content@, dist: self.dist@ }
    }
}

/// A reply of the store, as plain data.
#[derive(Debug)]
pub enum RawValue {
    /// No value.
    Nil,
    /// An integer.
    Int(i64),
    /// A string of bytes.
    Data(Vec<u8>),
    /// A list of further values.
    Bulk(Vec<RawValue>),
    /// A status line.
    Status(String),
    /// The status line `OK`.
    Okay,
}

} // verus!

//! Long-term conversational memory: the vector codec, the validation of
//! embedding batches, the store commands that index and search a session's
//! messages, and the parser for ranked search replies.
//!
//! Embedding components are carried as the IEEE-754 bit patterns of the
//! 32-bit floats they stand for, so every statement about them is exact.

pub mod codec;
pub mod error;
pub mod gateway;
pub mod ids;
pub mod long_term_memory;
pub mod models;
pub mod parser;
pub mod progress;
pub mod store;

//! The failures that the memory pipelines report.

use vstd::prelude::*;

verus! {

/// Why an indexing or search operation was given up.
#[derive(Debug, Clone, Copy, PartialEq, Eq, Structural)]
pub enum MemoryError {
    /// The embedding provider failed, or its answer does not match the request.
    ProviderError,
    /// The store refused a write or a search, or the connection was lost.
    StoreError,
    /// A search reply does not have the shape of a ranked hit list.
    ParseError,
    /// Bytes that should hold a vector are not a whole number of components.
    EncodingError,
}

} // verus!

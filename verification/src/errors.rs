use vstd::prelude::*;

verus! {

/// Why a vector file could not be opened.
#[derive(Clone, Copy, Debug, PartialEq, Eq, Structural)]
pub enum OpenError {
    /// The byte length is not a multiple of four, so the file is not an
    /// array of 32-bit values at all.
    InvalidFormat { len: usize },
    /// A store must have at least one dimension.
    ZeroDims,
    /// The number of stored 32-bit values is not a multiple of the
    /// dimension count.
    LengthNotDivisible { floats: usize, dims: usize },
}

/// Why a search against an opened store failed.
#[derive(Clone, Copy, Debug, PartialEq, Eq, Structural)]
pub enum SearchError {
    /// The query vector's length differs from the store's dimension count.
    DimensionMismatch { got: usize, expected: usize },
    /// A row of the vector store has no document record: the index is
    /// internally inconsistent, which is surfaced rather than skipped.
    MissingMetadata { row: usize },
}

/// A request that is rejected before any work is done.
#[derive(Clone, Copy, Debug, PartialEq, Eq, Structural)]
pub enum ClientError {
    /// The text handed to the embed operation is empty once trimmed.
    EmptyEmbedText,
    /// The search query is shorter than two characters once trimmed.
    QueryTooShort,
}

/// Why an index build was aborted.  A failed build never leaves a partial
/// index claiming validity.
#[derive(Clone, Copy, Debug, PartialEq, Eq, Structural)]
pub enum BuildError {
    /// A non-blank corpus line could not be parsed as a JSON record.
    MalformedJson { line: usize },
    /// Two corpus records share a document id, which would break the
    /// one-to-one row mapping.
    DuplicateDocId { row: usize },
}

} // verus!

//! A local semantic-search engine: a flat vector index persisted as a raw
//! little-endian file of 32-bit patterns, exact top-k retrieval over
//! precomputed similarity scores, the index-construction pipeline that
//! produces the file together with its row-to-document mapping, and the
//! query orchestration rules (validation, clamping, ranking, metadata join).

use vstd::prelude::*;

pub mod builder;
pub mod corpus;
pub mod errors;
pub mod json;
pub mod scores;
pub mod service;
pub mod store;
pub mod text;
pub mod tokens;

verus! {

/// Default for the `normalize` flag of an embed request.
pub fn default_true() -> (r: bool)
    ensures
        r == true,
{
    true
}

/// Default number of hits requested by a search when none is given.
pub fn default_top_k() -> (r: u32)
    ensures
        r == 10,
{
    10
}

} // verus!

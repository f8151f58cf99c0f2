//! The query orchestration rules: request validation, clamping of the
//! requested hit count, and the join of raw search hits with document
//! metadata into a ranked response.
//!
//! The expensive steps around these rules — embedding the query and
//! looking rows up in the metadata store — are the caller's; every
//! decision between them is made and specified here.

use vstd::prelude::*;
use vstd::string::StrSliceExecFns;
use vstd::string::StringExecFns;

use crate::builder::Document;
use crate::errors::{ClientError, SearchError};
use crate::text::{trim_str, trimmed};

verus! {

/// The fewest hits a search will report when anything matches.
pub const MIN_TOP_K: u32 = 1;

/// The most hits a search will report, whatever was asked.
pub const MAX_TOP_K: u32 = 50;

/// How many characters of a document's text a snippet shows.
pub const SNIPPET_CHARS: usize = 200;

/// The requested hit count, forced into the honoured range.
pub open spec fn spec_clamp_top_k(req: int) -> int {
    if req < MIN_TOP_K as int {
        MIN_TOP_K as int
    } else if req > MAX_TOP_K as int {
        MAX_TOP_K as int
    } else {
        req
    }
}

/// Clamps the requested hit count.
pub fn clamp_top_k(requested: u32) -> (r: u32)
    ensures
        r as int == spec_clamp_top_k(requested as int),
{
    if requested < MIN_TOP_K {
        MIN_TOP_K
    } else if requested > MAX_TOP_K {
        MAX_TOP_K
    } else {
        requested
    }
}

/// Rejects an embed request whose text is empty once trimmed, before any
/// work is done on it.
pub fn validate_embed_text(text: &str) -> (r: Result<(), ClientError>)
    ensures
        r is Ok <==> trimmed(text@).len() > 0,
        r matches Err(e) ==> e == ClientError::EmptyEmbedText,
{
    let t = trim_str(text);
    if t.is_empty() {
        Err(ClientError::EmptyEmbedText)
    } else {
        Ok(())
    }
}

/// Rejects a search whose query is shorter than two characters once
/// trimmed, before any work is done on it.
pub fn validate_search_query(query: &str) -> (r: Result<(), ClientError>)
    ensures
        r is Ok <==> trimmed(query@).len() >= 2,
        r matches Err(e) ==> e == ClientError::QueryTooShort,
{
    let t = trim_str(query);
    if t.unicode_len() < 2 {
        Err(ClientError::QueryTooShort)
    } else {
        Ok(())
    }
}

/// The first characters of a text, up to the given count.
pub open spec fn spec_snippet(text: Seq<char>, max: int) -> Seq<char> {
    if text.len() <= max {
        text
    } else {
        text.take(max)
    }
}

/// Cuts a bounded snippet from the front of a text.
pub fn snippet(text: &str, max_chars: usize) -> (r: String)
    ensures
        r@ == spec_snippet(text@, max_chars as int),
{
    let n = text.unicode_len();
    let end = if n < max_chars {
        n
    } else {
        max_chars
    };
    let r = String::from_str(text.substring_char(0, end));
    proof {
        if text@.len() <= max_chars as int {
            assert(text@.subrange(0, end as int) =~= text@);
        } else {
            assert(text@.subrange(0, end as int) =~= text@.take(max_chars as int));
        }
    }
    r
}

/// One ranked, metadata-joined search hit.  The score is carried as the
/// bit pattern of the 32-bit float it was computed as.
pub struct SearchHit {
    pub rank: u32,
    pub doc_id: String,
    pub score_bits: u32,
    pub manga_id: i64,
    pub title: String,
    pub chunk: Option<String>,
}

/// Joins raw `(row, score)` hits with the documents looked up for them,
/// in order, assigning 1-based ranks.
///
/// A row with no document is a data-integrity violation and fails the
/// whole request — the first such row is reported — rather than being
/// silently dropped.
pub fn join_hits(scored: &Vec<(usize, u32)>, metas: &Vec<Option<Document>>, include_snippet: bool)
    -> (r: Result<Vec<SearchHit>, SearchError>)
    requires
        metas@.len() == scored@.len(),
        scored@.len() < u32::MAX,
    ensures
        r is Ok <==> (forall|i: int| 0 <= i < metas@.len() ==> #[trigger] metas@[i] is Some),
        r matches Err(e) ==> exists|i: int|
            {
                &&& 0 <= i < metas@.len()
                &&& metas@[i] is None
                &&& forall|m: int| 0 <= m < i ==> #[trigger] metas@[m] is Some
                &&& e == (SearchError::MissingMetadata { row: scored@[i].0 })
            },
        r matches Ok(out) ==> {
            &&& out@.len() == scored@.len()
            &&& forall|i: int|
                0 <= i < out@.len() ==> {
                    let h = #[trigger] out@[i];
                    &&& metas@[i] matches Some(d)
                    &&& h.rank == i + 1
                    &&& h.doc_id@ == d.doc_id@
                    &&& h.score_bits == scored@[i].1
                    &&& h.manga_id == d.manga_id
                    &&& h.title@ == d.title@
                    &&& if include_snippet {
                        h.chunk matches Some(c) && c@ == spec_snippet(
                            d.text@,
                            SNIPPET_CHARS as int,
                        )
                    } else {
                        h.chunk is None
                    }
                }
        },
{
    let n = scored.len();
    let mut out: Vec<SearchHit> = Vec::new();
    let mut i: usize = 0;
    while i < n
        invariant
            i <= n,
            n == scored@.len(),
            metas@.len() == scored@.len(),
            scored@.len() < u32::MAX,
            out@.len() == i,
            forall|m: int| 0 <= m < i ==> #[trigger] metas@[m] is Some,
            forall|m: int|
                0 <= m < i ==> {
                    let h = #[trigger] out@[m];
                    &&& metas@[m] matches Some(d)
                    &&& h.rank == m + 1
                    &&& h.doc_id@ == d.doc_id@
                    &&& h.score_bits == scored@[m].1
                    &&& h.manga_id == d.manga_id
                    &&& h.title@ == d.title@
                    &&& if include_snippet {
                        h.chunk matches Some(c) && c@ == spec_snippet(
                            d.text@,
                            SNIPPET_CHARS as int,
                        )
                    } else {
                        h.chunk is None
                    }
                },
        decreases n - i,
    {
        let (row, score_bits) = scored[i];
        match &metas[i] {
            Some(d) => {
                let chunk = if include_snippet {
                    Some(snippet(d.text.as_str(), SNIPPET_CHARS))
                } else {
                    None
                };
                let hit = SearchHit {
                    rank: (i as u32) + 1,
                    doc_id: d.doc_id.clone(),
                    score_bits,
                    manga_id: d.manga_id,
                    title: d.title.clone(),
                    chunk,
                };
                out.push(hit);
            },
            None => {
                return Err(SearchError::MissingMetadata { row });
            },
        }
        i = i + 1;
    }
    Ok(out)
}

} // verus!

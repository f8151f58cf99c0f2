//! The flat vector store: a validated, read-only array of fixed-width
//! vectors decoded from a raw little-endian file, and exact top-k retrieval
//! over per-row similarity scores.
//!
//! Vector components are kept as the raw bit patterns of 32-bit floats; the
//! caller computes each row's dot-product score against the query (both
//! sides unit-normalized, so the dot product is the cosine similarity) and
//! hands the scores back as bit patterns for selection.

use vstd::prelude::*;

use crate::errors::{OpenError, SearchError};
use crate::scores::{
    count_valid, hit_ranks_before, is_nan_bits, lemma_count_valid_le_len,
    lemma_count_valid_take_step, ranks_before, spec_is_nan_bits,
};

verus! {

/// An opened, immutable vector store.  It is never mutated after `open`,
/// so any number of searches may read it at once.
pub struct VectorStore {
    dims: usize,
    data: Vec<u32>,
}

/// A result list is sorted when every earlier entry ranks before every
/// later one: descending score, ascending row between equal scores.
pub open spec fn sorted_hits(h: Seq<(usize, u32)>) -> bool {
    forall|i: int, j: int| 0 <= i < j < h.len() ==> ranks_before(h[i], h[j])
}

/// An entry of a result list is honest when its row exists and carries a
/// usable (non-NaN) score, and the reported score is that row's score.
pub open spec fn hit_matches(scores: Seq<u32>, e: (usize, u32)) -> bool {
    &&& e.0 < scores.len()
    &&& !spec_is_nan_bits(scores[e.0 as int])
    &&& e.1 == scores[e.0 as int]
}

/// Whether some entry of a result list reports the given row.
pub open spec fn contains_row(h: Seq<(usize, u32)>, row: int) -> bool {
    exists|i: int| 0 <= i < h.len() && h[i].0 == row
}

/// The effective result bound: the requested count, capped by the number
/// of rows and raised to at least one.
pub open spec fn spec_k_cap(top_k: int, n: int) -> int {
    let m = if top_k <= n {
        top_k
    } else {
        n
    };
    if m <= 1 {
        1
    } else {
        m
    }
}

/// Everything a successful search promises of its result list `h`, given
/// the per-row scores and the requested hit count: the list holds the
/// `min(k_cap, usable)` best rows, each entry honest about its row's
/// score, in strict rank order, and nothing better was left out.
pub open spec fn search_result_ok(scores: Seq<u32>, top_k: int, h: Seq<(usize, u32)>) -> bool {
    &&& h.len() == vstd::math::min(spec_k_cap(top_k, scores.len() as int), count_valid(scores) as int)
    &&& sorted_hits(h)
    &&& forall|i: int| 0 <= i < h.len() ==> hit_matches(scores, #[trigger] h[i])
    &&& forall|row: int|
        0 <= row < scores.len() && !spec_is_nan_bits(scores[row]) && !contains_row(h, row)
            ==> forall|i: int|
            0 <= i < h.len() ==> ranks_before(#[trigger] h[i], (row as usize, scores[row]))
}

impl VectorStore {
    /// The dimension count every stored vector and every query must have.
    pub closed spec fn spec_dims(self) -> int {
        self.dims as int
    }

    /// The decoded file contents: one 32-bit pattern per stored component.
    pub closed spec fn contents(self) -> Seq<u32> {
        self.data@
    }

    /// A store is well formed when it has at least one dimension and holds
    /// a whole number of vectors.
    pub open spec fn wf(self) -> bool {
        &&& self.spec_dims() > 0
        &&& self.contents().len() as int % self.spec_dims() == 0
    }

    /// The number of stored vectors (rows).
    pub open spec fn spec_len(self) -> int {
        self.contents().len() as int / self.spec_dims()
    }

    /// The bit patterns of the vector stored at `row`.
    pub open spec fn spec_vector(self, row: int) -> Seq<u32> {
        self.contents().subrange(row * self.spec_dims(), (row + 1) * self.spec_dims())
    }

    /// Opens a store over the raw bytes of a vector file.
    ///
    /// The file is an array of 32-bit little-endian values with no header,
    /// so its length must be a multiple of four and must hold a whole
    /// number of `dims`-sized vectors; anything else is a format error, and
    /// a query dimension of zero is rejected outright.
    pub fn open(bytes: &[u8], dims: usize) -> (r: Result<VectorStore, OpenError>)
        ensures
            match r {
                Ok(s) => {
                    &&& bytes@.len() as int % 4 == 0
                    &&& dims > 0
                    &&& (bytes@.len() as int / 4) % (dims as int) == 0
                    &&& s.wf()
                    &&& s.spec_dims() == dims
                    &&& s.contents().len() == bytes@.len() as int / 4
                    &&& s.spec_len() == bytes@.len() as int / 4 / (dims as int)
                    &&& forall|i: int|
                        0 <= i < s.contents().len() ==> s.contents()[i]
                            == vstd::bytes::spec_u32_from_le_bytes(
                            bytes@.subrange(4 * i, 4 * i + 4),
                        )
                },
                Err(OpenError::InvalidFormat { len }) => {
                    &&& len == bytes@.len()
                    &&& bytes@.len() as int % 4 != 0
                },
                Err(OpenError::ZeroDims) => {
                    &&& bytes@.len() as int % 4 == 0
                    &&& dims == 0
                },
                Err(OpenError::LengthNotDivisible { floats, dims: d }) => {
                    &&& bytes@.len() as int % 4 == 0
                    &&& dims > 0
                    &&& floats == bytes@.len() as int / 4
                    &&& d == dims
                    &&& (bytes@.len() as int / 4) % (dims as int) != 0
                },
            },
    {
        if bytes.len() % 4 != 0 {
            return Err(OpenError::InvalidFormat { len: bytes.len() });
        }
        if dims == 0 {
            return Err(OpenError::ZeroDims);
        }
        let blen = bytes.len();
        let nfloats = blen / 4;
        if nfloats % dims != 0 {
            return Err(OpenError::LengthNotDivisible { floats: nfloats, dims });
        }
        let mut data: Vec<u32> = Vec::new();
        let mut i: usize = 0;
        while i < nfloats
            invariant
                i <= nfloats,
                blen == bytes@.len(),
                nfloats == bytes@.len() as int / 4,
                bytes@.len() as int % 4 == 0,
                data@.len() == i,
                forall|j: int|
                    0 <= j < i ==> data@[j] == vstd::bytes::spec_u32_from_le_bytes(
                        bytes@.subrange(4 * j, 4 * j + 4),
                    ),
            decreases nfloats - i,
        {
            assert(4 * i + 4 <= blen);
            let word = vstd::bytes::u32_from_le_bytes(
                vstd::slice::slice_subrange(bytes, 4 * i, 4 * i + 4),
            );
            data.push(word);
            i = i + 1;
        }
        Ok(VectorStore { dims, data })
    }

    /// The store's dimension count.
    pub fn dims(&self) -> (r: usize)
        ensures
            r as int == self.spec_dims(),
    {
        self.dims
    }

    /// The number of stored vectors.
    pub fn len(&self) -> (r: usize)
        requires
            self.wf(),
        ensures
            r as int == self.spec_len(),
    {
        self.data.len() / self.dims
    }

    /// Read access to the bit patterns of one stored vector, for the caller
    /// that turns them back into floats to compute a score.
    pub fn vector_bits(&self, row: usize) -> (r: &[u32])
        requires
            self.wf(),
            (row as int) < self.spec_len(),
        ensures
            r@ == self.spec_vector(row as int),
    {
        let dlen = self.data.len();
        proof {
            assert((row as int + 1) * (self.dims as int) == row as int * (self.dims as int)
                + (self.dims as int) && row as int * (self.dims as int) + (self.dims as int)
                <= self.data@.len() as int) by (nonlinear_arith)
                requires
                    (row as int) < self.data@.len() as int / (self.dims as int),
                    self.data@.len() as int % (self.dims as int) == 0,
                    self.dims > 0,
            ;
            assert(row * self.dims + self.dims <= dlen);
        }
        vstd::slice::slice_subrange(self.data.as_slice(), row * self.dims, row * self.dims + self.dims)
    }

    /// Exact top-k selection over one score per row.
    ///
    /// `score_bits[i]` is the bit pattern of row `i`'s similarity against
    /// the query, whose length `query_len` is checked against the store's
    /// dimensions before anything else; on a mismatch the call fails with
    /// no result, whatever the scores hold.  NaN scores are skipped.  The
    /// result lists the best-scoring rows, most similar first and the lower
    /// row first between equal scores, and holds `min(top_k, len)` entries
    /// (never fewer than one when the store and the scores allow it).
    pub fn search_top_k(&self, query_len: usize, score_bits: &Vec<u32>, top_k: usize)
        -> (r: Result<Vec<(usize, u32)>, SearchError>)
        requires
            self.wf(),
            score_bits@.len() == self.spec_len(),
        ensures
            r is Err <==> query_len as int != self.spec_dims(),
            r matches Err(e) ==> {
                &&& e matches SearchError::DimensionMismatch { got, expected }
                &&& got == query_len
                &&& expected as int == self.spec_dims()
            },
            r matches Ok(h) ==> search_result_ok(score_bits@, top_k as int, h@),
    {
        if query_len != self.dims {
            return Err(SearchError::DimensionMismatch { got: query_len, expected: self.dims });
        }
        let n = score_bits.len();
        let mut hits: Vec<(usize, u32)> = Vec::new();
        let mut i: usize = 0;
        while i < n
            invariant
                i <= n,
                n == score_bits@.len(),
                hits@.len() == count_valid(score_bits@.take(i as int)),
                sorted_hits(hits@),
                forall|j: int|
                    0 <= j < hits@.len() ==> hit_matches(score_bits@, #[trigger] hits@[j])
                        && hits@[j].0 < i,
                forall|row: int|
                    0 <= row < i && !spec_is_nan_bits(score_bits@[row]) ==> contains_row(
                        hits@,
                        row,
                    ),
            decreases n - i,
        {
            let b = score_bits[i];
            if !is_nan_bits(b) {
                let cand = (i, b);
                let mut pos: usize = 0;
                while pos < hits.len() && hit_ranks_before(hits[pos], cand)
                    invariant
                        pos <= hits@.len(),
                        cand == (i, b),
                        forall|m: int| 0 <= m < pos ==> ranks_before(#[trigger] hits@[m], cand),
                        sorted_hits(hits@),
                        forall|j: int|
                            0 <= j < hits@.len() ==> hit_matches(score_bits@, #[trigger] hits@[j])
                                && hits@[j].0 < i,
                    decreases hits@.len() - pos,
                {
                    pos = pos + 1;
                }
                let ghost old_hits = hits@;
                hits.insert(pos, cand);
                proof {
                    let new_hits = hits@;
                    assert(new_hits == old_hits.insert(pos as int, cand));
                    // The entry at the found position (if any) does not rank
                    // before the candidate, and its row is older, so the
                    // candidate ranks before it.
                    assert forall|p: int, q: int| 0 <= p < q < new_hits.len() implies ranks_before(
                        new_hits[p],
                        new_hits[q],
                    ) by {
                        if p < pos && q < pos {
                        } else if p < pos && q == pos {
                            assert(new_hits[p] == old_hits[p]);
                        } else if p == pos {
                            let e = old_hits[q - 1];
                            assert(new_hits[q] == e);
                            if q - 1 == pos {
                                assert(!ranks_before(e, cand));
                                assert(e.0 < i);
                            } else {
                                assert(!ranks_before(old_hits[pos as int], cand));
                                assert(ranks_before(old_hits[pos as int], e));
                            }
                        } else if p > pos {
                            assert(new_hits[p] == old_hits[p - 1]);
                            assert(new_hits[q] == old_hits[q - 1]);
                        } else {
                            // p < pos < q
                            assert(new_hits[p] == old_hits[p]);
                            assert(new_hits[q] == old_hits[q - 1]);
                            if q - 1 == pos {
                                assert(ranks_before(old_hits[p], cand));
                                assert(!ranks_before(old_hits[pos as int], cand));
                            } else {
                                assert(ranks_before(old_hits[p], old_hits[q - 1]));
                            }
                        }
                    }
                    lemma_count_valid_take_step(score_bits@, i as int);
                    assert forall|row: int|
                        0 <= row < i + 1 && !spec_is_nan_bits(score_bits@[row]) implies contains_row(
                        new_hits,
                        row,
                    ) by {
                        if row == i {
                            assert(new_hits[pos as int].0 == row);
                        } else {
                            assert(contains_row(old_hits, row));
                            let w = choose|w: int|
                                0 <= w < old_hits.len() && old_hits[w].0 == row;
                            assert(old_hits[w].0 == row);
                            if w < pos {
                                assert(new_hits[w].0 == row);
                            } else {
                                assert(new_hits[w + 1].0 == row);
                            }
                        }
                    }
                }
            } else {
                proof {
                    lemma_count_valid_take_step(score_bits@, i as int);
                }
            }
            i = i + 1;
        }
        proof {
            assert(score_bits@.take(n as int) =~= score_bits@);
            lemma_count_valid_le_len(score_bits@);
        }
        let cap0 = if top_k > n {
            n
        } else {
            top_k
        };
        let cap = if cap0 < 1 {
            1
        } else {
            cap0
        };
        let keep = if cap < hits.len() {
            cap
        } else {
            hits.len()
        };
        let ghost full = hits@;
        hits.truncate(keep);
        proof {
            assert(hits@ =~= full.take(keep as int));
            assert forall|row: int|
                0 <= row < score_bits@.len() && !spec_is_nan_bits(score_bits@[row])
                    && !contains_row(hits@, row) implies forall|i2: int|
                0 <= i2 < hits@.len() ==> ranks_before(
                    #[trigger] hits@[i2],
                    (row as usize, score_bits@[row]),
                ) by {
                assert(contains_row(full, row));
                let w = choose|w: int| 0 <= w < full.len() && full[w].0 == row;
                assert(0 <= w < full.len() && full[w].0 == row);
                assert(hit_matches(score_bits@, full[w]));
                assert(full[w] == (row as usize, score_bits@[row]));
                if w < keep {
                    assert(hits@[w] == full[w]);
                    assert(contains_row(hits@, row));
                }
                assert(w >= keep);
                assert forall|i2: int| 0 <= i2 < hits@.len() implies ranks_before(
                    #[trigger] hits@[i2],
                    (row as usize, score_bits@[row]),
                ) by {
                    assert(hits@[i2] == full[i2]);
                    assert(ranks_before(full[i2], full[w]));
                }
            }
        }
        Ok(hits)
    }
}

/// For every request of at least one hit over scores that are all usable,
/// a successful search returns exactly `min(top_k, N)` hits — none when
/// the store is empty — in strict rank order: descending score, ascending
/// row between equal scores.  (A request of zero hits is raised to one,
/// so it is left out here.)
pub proof fn lemma_search_count_and_order(scores: Seq<u32>, top_k: int, h: Seq<(usize, u32)>)
    requires
        search_result_ok(scores, top_k, h),
        top_k >= 1,
        count_valid(scores) == scores.len(),
    ensures
        h.len() == vstd::math::min(top_k, scores.len() as int),
        sorted_hits(h),
{
}

/// Entries of one result prefix agree pairwise between any two lists that
/// both satisfy the search contract for the same scores and request.
proof fn lemma_search_entry_eq(
    scores: Seq<u32>,
    top_k: int,
    h1: Seq<(usize, u32)>,
    h2: Seq<(usize, u32)>,
    j: int,
)
    requires
        search_result_ok(scores, top_k, h1),
        search_result_ok(scores, top_k, h2),
        0 <= j < h1.len(),
    ensures
        h1[j] == h2[j],
    decreases j,
{
    assert(h1.len() == h2.len());
    assert forall|m: int| 0 <= m < j implies h1[m] == h2[m] by {
        lemma_search_entry_eq(scores, top_k, h1, h2, m);
    }
    let e1 = h1[j];
    let e2 = h2[j];
    if e1 != e2 {
        assert(hit_matches(scores, e1));
        assert(hit_matches(scores, e2));
        if e1.0 == e2.0 {
            assert(e1.1 == scores[e1.0 as int] && e2.1 == scores[e1.0 as int]);
            assert(false);
        }
        // The other list ranks its own entry at j before e1 ...
        if contains_row(h2, e1.0 as int) {
            let q = choose|q: int| 0 <= q < h2.len() && h2[q].0 == e1.0;
            assert(hit_matches(scores, h2[q]));
            assert(h2[q] == e1);
            if q < j {
                assert(h1[q] == e1);
                assert(ranks_before(h1[q], h1[j]));
                assert(false);
            } else if q == j {
                assert(false);
            } else {
                assert(ranks_before(h2[j], h2[q]));
            }
        } else {
            assert(ranks_before(h2[j], (e1.0, scores[e1.0 as int])));
        }
        assert(ranks_before(e2, e1));
        // ... and symmetrically e2 ranks before e1's place, a contradiction.
        if contains_row(h1, e2.0 as int) {
            let q = choose|q: int| 0 <= q < h1.len() && h1[q].0 == e2.0;
            assert(hit_matches(scores, h1[q]));
            assert(h1[q] == e2);
            if q < j {
                assert(h2[q] == e2);
                assert(ranks_before(h2[q], h2[j]));
                assert(false);
            } else if q == j {
                assert(false);
            } else {
                assert(ranks_before(h1[j], h1[q]));
            }
        } else {
            assert(ranks_before(h1[j], (e2.0, scores[e2.0 as int])));
        }
        assert(ranks_before(e1, e2));
        assert(false);
    }
}

/// The search contract pins its result down completely: any two result
/// lists that satisfy it for the same scores and the same request are
/// equal.  A search is thus a pure function of the opened store and the
/// query alone — concurrent searches share no mutable state, and neither
/// can ever observe the other's hits.
pub proof fn lemma_search_deterministic(
    scores: Seq<u32>,
    top_k: int,
    h1: Seq<(usize, u32)>,
    h2: Seq<(usize, u32)>,
)
    requires
        search_result_ok(scores, top_k, h1),
        search_result_ok(scores, top_k, h2),
    ensures
        h1 == h2,
{
    assert(h1.len() == h2.len());
    assert forall|j: int| 0 <= j < h1.len() implies h1[j] == h2[j] by {
        lemma_search_entry_eq(scores, top_k, h1, h2, j);
    }
    assert(h1 =~= h2);
}

} // verus!

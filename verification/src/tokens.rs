//! Shaping the embedder's tokenized input: whatever the tokenizer
//! produced is truncated to the configured maximum length and padded so
//! that the model never sees an empty sequence.

use vstd::prelude::*;

verus! {

/// A sequence cut down to at most `max` elements.
pub open spec fn spec_truncated(s: Seq<i64>, max: int) -> Seq<i64> {
    if s.len() > max {
        s.take(max)
    } else {
        s
    }
}

/// An empty sequence replaced by a single zero, anything else unchanged.
pub open spec fn spec_padded(s: Seq<i64>) -> Seq<i64> {
    if s.len() == 0 {
        seq![0i64]
    } else {
        s
    }
}

/// The three aligned model inputs and their common length.
pub struct TokenInputs {
    pub ids: Vec<i64>,
    pub mask: Vec<i64>,
    pub type_ids: Vec<i64>,
    pub seq_len: usize,
}

/// Truncates the three aligned token streams to `max_length` and pads an
/// empty encoding to one zero token, keeping them aligned; `seq_len` is
/// the resulting common length, always at least one.
pub fn prepare_token_inputs(
    ids: Vec<i64>,
    mask: Vec<i64>,
    type_ids: Vec<i64>,
    max_length: usize,
) -> (r: TokenInputs)
    requires
        ids@.len() == mask@.len(),
        ids@.len() == type_ids@.len(),
    ensures
        r.ids@ == spec_padded(spec_truncated(ids@, max_length as int)),
        r.mask@ == spec_padded(spec_truncated(mask@, max_length as int)),
        r.type_ids@ == spec_padded(spec_truncated(type_ids@, max_length as int)),
        r.seq_len == r.ids@.len(),
        r.seq_len == r.mask@.len(),
        r.seq_len == r.type_ids@.len(),
        r.seq_len >= 1,
{
    let mut ids = ids;
    let mut mask = mask;
    let mut type_ids = type_ids;
    if ids.len() > max_length {
        ids.truncate(max_length);
        mask.truncate(max_length);
        type_ids.truncate(max_length);
    }
    if ids.len() == 0 {
        ids.push(0);
        mask.push(0);
        type_ids.push(0);
        proof {
            assert(ids@ =~= seq![0i64]);
            assert(mask@ =~= seq![0i64]);
            assert(type_ids@ =~= seq![0i64]);
        }
    }
    let seq_len = ids.len();
    TokenInputs { ids, mask, type_ids, seq_len }
}

} // verus!

//! Similarity scores as raw IEEE-754 bit patterns.
//!
//! The store never does floating-point arithmetic itself: callers compute
//! the dot product of two unit vectors and hand the result over as the raw
//! bit pattern of the 32-bit float.  Everything the selection logic needs
//! from a score — "is it NaN?" and "which of two scores is larger?" — is a
//! pure function of the bit pattern, defined here.

use vstd::prelude::*;

verus! {

/// A 32-bit IEEE-754 pattern is NaN exactly when the exponent bits are all
/// ones and the significand is non-zero.
pub open spec fn spec_is_nan_bits(b: u32) -> bool {
    (b >> 23) & 0xff == 0xff && b & 0x7fffff != 0
}

/// Decides NaN-ness from the bit pattern alone.
pub fn is_nan_bits(b: u32) -> (r: bool)
    ensures
        r == spec_is_nan_bits(b),
{
    (b >> 23) & 0xff == 0xff && b & 0x7fffff != 0
}

/// The monotone integer key of a float's bit pattern: flipping the sign bit
/// of a non-negative pattern, and all bits of a negative one, gives an
/// unsigned integer whose `<` agrees with `<` on the non-NaN floats the
/// patterns encode.  The selection logic orders scores by this key.
pub open spec fn spec_order_key(b: u32) -> u32 {
    if b >= 0x8000_0000 {
        !b
    } else {
        (b + 0x8000_0000) as u32
    }
}

/// Computes the ordering key of a score's bit pattern.
pub fn order_key(b: u32) -> (r: u32)
    ensures
        r == spec_order_key(b),
{
    if b >= 0x8000_0000 {
        !b
    } else {
        b + 0x8000_0000
    }
}

/// The rank order of two scored rows: higher score first, and between equal
/// scores the lower row number first, so that a result list is deterministic.
pub open spec fn ranks_before(a: (usize, u32), b: (usize, u32)) -> bool {
    ||| spec_order_key(a.1) > spec_order_key(b.1)
    ||| (spec_order_key(a.1) == spec_order_key(b.1) && a.0 < b.0)
}

/// Decides the rank order of two scored rows.
pub fn hit_ranks_before(a: (usize, u32), b: (usize, u32)) -> (r: bool)
    ensures
        r == ranks_before(a, b),
{
    let ka = order_key(a.1);
    let kb = order_key(b.1);
    ka > kb || (ka == kb && a.0 < b.0)
}

/// How many of a sequence of score patterns are not NaN; only those rows
/// can appear in a result list.
pub open spec fn count_valid(s: Seq<u32>) -> nat
    decreases s.len(),
{
    if s.len() == 0 {
        0
    } else {
        count_valid(s.drop_last()) + if spec_is_nan_bits(s.last()) {
            0nat
        } else {
            1nat
        }
    }
}

/// Counting one more score adds one when it is usable and nothing when it
/// is NaN.
pub proof fn lemma_count_valid_take_step(s: Seq<u32>, i: int)
    requires
        0 <= i < s.len(),
    ensures
        count_valid(s.take(i + 1)) == count_valid(s.take(i)) + if spec_is_nan_bits(s[i]) {
            0nat
        } else {
            1nat
        },
{
    assert(s.take(i + 1).drop_last() =~= s.take(i));
    assert(s.take(i + 1).last() == s[i]);
}

/// The count never exceeds the length.
pub proof fn lemma_count_valid_le_len(s: Seq<u32>)
    ensures
        count_valid(s) <= s.len(),
    decreases s.len(),
{
    if s.len() > 0 {
        lemma_count_valid_le_len(s.drop_last());
    }
}

} // verus!

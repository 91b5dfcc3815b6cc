//! IEEE 754 binary32 numbers, read through their bit patterns.
//!
//! A pattern is a `u32`: one sign bit, eight exponent bits, twenty-three
//! fraction bits. Everything here is integer arithmetic on that pattern.

use vstd::prelude::*;

verus! {

/// Pattern of the sign bit alone (negative zero).
pub const SIGN_BIT: u32 = 0x8000_0000;

/// Pattern of positive infinity: the largest magnitude that is not a NaN.
pub const INFINITY_BITS: u32 = 0x7F80_0000;

/// The pattern with its sign bit cleared.
pub open spec fn magnitude(bits: u32) -> int {
    if bits >= SIGN_BIT {
        bits - SIGN_BIT
    } else {
        bits as int
    }
}

/// Whether the pattern has its sign bit set.
pub open spec fn sign_set(bits: u32) -> bool {
    bits >= SIGN_BIT
}

/// Whether the pattern encodes a NaN.
pub open spec fn is_nan(bits: u32) -> bool {
    magnitude(bits) > INFINITY_BITS
}

/// Whether the pattern encodes zero, of either sign.
pub open spec fn is_zero(bits: u32) -> bool {
    magnitude(bits) == 0
}

/// Whether the pattern encodes a number strictly greater than zero
/// (positive subnormal up to positive infinity; zeros and NaNs are not).
pub open spec fn is_positive(bits: u32) -> bool {
    0 < bits <= INFINITY_BITS
}

/// The position of a non-NaN pattern on the number line, scaled so that
/// comparing positions compares the encoded numbers. Both zeros sit at 0.
pub open spec fn position(bits: u32) -> int {
    if sign_set(bits) {
        -magnitude(bits)
    } else {
        magnitude(bits)
    }
}

/// IEEE 754 `<` on patterns: false as soon as either side is a NaN.
pub open spec fn less_than(a: u32, b: u32) -> bool {
    !is_nan(a) && !is_nan(b) && position(a) < position(b)
}

/// Sort key under which larger numbers come first and NaNs come last.
pub open spec fn descending_rank(bits: u32) -> int {
    if is_nan(bits) {
        2 * SIGN_BIT
    } else {
        SIGN_BIT - position(bits)
    }
}

/// Sort key under which smaller numbers come first and NaNs come last.
pub open spec fn ascending_rank(bits: u32) -> int {
    if is_nan(bits) {
        2 * SIGN_BIT
    } else {
        SIGN_BIT + position(bits)
    }
}

/// Tests whether the encoded number is strictly positive.
pub fn positive(bits: u32) -> (r: bool)
    ensures
        r == is_positive(bits),
{
    0 < bits && bits <= INFINITY_BITS
}

/// Tests whether the encoded number is zero, of either sign.
pub fn zero(bits: u32) -> (r: bool)
    ensures
        r == is_zero(bits),
{
    bits == 0 || bits == SIGN_BIT
}

/// Tests whether the pattern encodes a NaN.
pub fn nan(bits: u32) -> (r: bool)
    ensures
        r == is_nan(bits),
{
    if bits >= SIGN_BIT {
        bits - SIGN_BIT > INFINITY_BITS
    } else {
        bits > INFINITY_BITS
    }
}

/// Computes the key by which scores are ordered from best to worst.
pub fn descending_key(bits: u32) -> (key: u64)
    ensures
        key == descending_rank(bits),
{
    if nan(bits) {
        0x1_0000_0000
    } else if bits >= SIGN_BIT {
        let m: u32 = bits - SIGN_BIT;
        0x8000_0000u64 + (m as u64)
    } else {
        0x8000_0000u64 - (bits as u64)
    }
}

/// Computes the key by which distances are ordered from nearest to
/// farthest.
pub fn ascending_key(bits: u32) -> (key: u64)
    ensures
        key == ascending_rank(bits),
{
    if nan(bits) {
        0x1_0000_0000
    } else if bits >= SIGN_BIT {
        let m: u32 = bits - SIGN_BIT;
        0x8000_0000u64 - (m as u64)
    } else {
        0x8000_0000u64 + (bits as u64)
    }
}

/// A smaller number has a smaller ascending rank, and the other way round.
pub proof fn lemma_ascending_rank_orders(a: u32, b: u32)
    requires
        !is_nan(a),
        !is_nan(b),
    ensures
        less_than(a, b) <==> ascending_rank(a) < ascending_rank(b),
        ascending_rank(a) == ascending_rank(b) <==> position(a) == position(b),
{
}

/// A larger number has a smaller descending rank, and the other way round.
pub proof fn lemma_descending_rank_orders(a: u32, b: u32)
    requires
        !is_nan(a),
        !is_nan(b),
    ensures
        less_than(a, b) <==> descending_rank(b) < descending_rank(a),
        descending_rank(a) == descending_rank(b) <==> position(a) == position(b),
{
}

/// Every NaN ranks after every number, in either order.
pub proof fn lemma_nan_ranks_last(a: u32, b: u32)
    requires
        is_nan(a),
        !is_nan(b),
    ensures
        descending_rank(b) < descending_rank(a),
        ascending_rank(b) < ascending_rank(a),
{
}

} // verus!

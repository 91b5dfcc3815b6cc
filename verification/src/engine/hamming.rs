//! Hamming distance between packed bit vectors: a scalar kernel, and the
//! vectorised kernel of the `simsimd` crate behind the same contract.

use simsimd::BinarySimilarity;
use vstd::prelude::*;

verus! {

/// Bit `j` of a byte as 0 or 1, bit 0 being the least significant.
pub open spec fn byte_bit(x: u8, j: int) -> int {
    if j == 0 {
        x as int % 2
    } else if j == 1 {
        (x as int / 2) % 2
    } else if j == 2 {
        (x as int / 4) % 2
    } else if j == 3 {
        (x as int / 8) % 2
    } else if j == 4 {
        (x as int / 16) % 2
    } else if j == 5 {
        (x as int / 32) % 2
    } else if j == 6 {
        (x as int / 64) % 2
    } else {
        (x as int / 128) % 2
    }
}

/// 1 where the two bytes differ in bit `j`, else 0.
pub open spec fn bit_differs(x: u8, y: u8, j: int) -> nat {
    if byte_bit(x, j) != byte_bit(y, j) {
        1
    } else {
        0
    }
}

/// Number of bit positions in which two bytes differ.
pub open spec fn byte_distance(x: u8, y: u8) -> nat {
    bit_differs(x, y, 0) + bit_differs(x, y, 1) + bit_differs(x, y, 2) + bit_differs(x, y, 3)
        + bit_differs(x, y, 4) + bit_differs(x, y, 5) + bit_differs(x, y, 6) + bit_differs(
        x,
        y,
        7,
    )
}

/// Number of bit positions in which the first `n` bytes of two buffers differ.
pub open spec fn prefix_distance(a: Seq<u8>, b: Seq<u8>, n: nat) -> nat
    decreases n,
{
    if n == 0 {
        0
    } else {
        prefix_distance(a, b, (n - 1) as nat) + byte_distance(a[n - 1], b[n - 1])
    }
}

/// Hamming distance of two buffers of equal length: the number of bit
/// positions in which they differ.
pub open spec fn hamming(a: Seq<u8>, b: Seq<u8>) -> nat {
    prefix_distance(a, b, a.len())
}

/// What a kernel returns for two buffers: their distance, or nothing when
/// they differ in length.
pub open spec fn distance_of(a: Seq<u8>, b: Seq<u8>) -> Option<u64> {
    if a.len() == b.len() {
        Some(hamming(a, b) as u64)
    } else {
        None
    }
}

/// Largest buffer length whose distance is sure to fit in a `u64`.
pub open spec fn max_len() -> nat {
    (u64::MAX / 8) as nat
}

/// Buffers shorter than this many bytes go to the vectorised kernel, whose
/// narrowest counter then cannot overflow.
pub const SIMD_LEN_LIMIT: usize = 0x1000_0000;

/// A byte differs from another in at most eight bits.
pub proof fn lemma_byte_distance_bound(x: u8, y: u8)
    ensures
        byte_distance(x, y) <= 8,
{
}

/// A prefix of `n` bytes holds at most `8 n` differing bits.
pub proof fn lemma_prefix_distance_bound(a: Seq<u8>, b: Seq<u8>, n: nat)
    ensures
        prefix_distance(a, b, n) <= 8 * n,
    decreases n,
{
    if n > 0 {
        lemma_prefix_distance_bound(a, b, (n - 1) as nat);
        lemma_byte_distance_bound(a[n - 1], b[n - 1]);
    }
}

/// The distance is symmetric.
pub proof fn lemma_prefix_distance_symmetric(a: Seq<u8>, b: Seq<u8>, n: nat)
    ensures
        prefix_distance(a, b, n) == prefix_distance(b, a, n),
    decreases n,
{
    if n > 0 {
        lemma_prefix_distance_symmetric(a, b, (n - 1) as nat);
    }
}

/// A buffer is at distance zero from itself.
pub proof fn lemma_hamming_self(a: Seq<u8>)
    ensures
        hamming(a, a) == 0,
{
    lemma_prefix_self(a, a.len());
}

proof fn lemma_prefix_self(a: Seq<u8>, n: nat)
    ensures
        prefix_distance(a, a, n) == 0,
    decreases n,
{
    if n > 0 {
        lemma_prefix_self(a, (n - 1) as nat);
    }
}

/// Counts the bits set in a byte.
fn count_ones(x: u8) -> (c: u8)
    ensures
        c == byte_bit(x, 0) + byte_bit(x, 1) + byte_bit(x, 2) + byte_bit(x, 3) + byte_bit(x, 4)
            + byte_bit(x, 5) + byte_bit(x, 6) + byte_bit(x, 7),
{
    (x % 2) + ((x / 2) % 2) + ((x / 4) % 2) + ((x / 8) % 2) + ((x / 16) % 2) + ((x / 32) % 2) + ((x
        / 64) % 2) + ((x / 128) % 2)
}

/// Counts the bit positions in which two bytes differ.
pub fn differing_bits(x: u8, y: u8) -> (c: u8)
    ensures
        c == byte_distance(x, y),
{
    let z: u8 = x ^ y;
    assert(z % 2 == (if x % 2 != y % 2 { 1u8 } else { 0u8 })) by (bit_vector)
        requires
            z == x ^ y,
    ;
    assert((z / 2) % 2 == (if (x / 2) % 2 != (y / 2) % 2 { 1u8 } else { 0u8 })) by (bit_vector)
        requires
            z == x ^ y,
    ;
    assert((z / 4) % 2 == (if (x / 4) % 2 != (y / 4) % 2 { 1u8 } else { 0u8 })) by (bit_vector)
        requires
            z == x ^ y,
    ;
    assert((z / 8) % 2 == (if (x / 8) % 2 != (y / 8) % 2 { 1u8 } else { 0u8 })) by (bit_vector)
        requires
            z == x ^ y,
    ;
    assert((z / 16) % 2 == (if (x / 16) % 2 != (y / 16) % 2 { 1u8 } else { 0u8 }))
        by (bit_vector)
        requires
            z == x ^ y,
    ;
    assert((z / 32) % 2 == (if (x / 32) % 2 != (y / 32) % 2 { 1u8 } else { 0u8 }))
        by (bit_vector)
        requires
            z == x ^ y,
    ;
    assert((z / 64) % 2 == (if (x / 64) % 2 != (y / 64) % 2 { 1u8 } else { 0u8 }))
        by (bit_vector)
        requires
            z == x ^ y,
    ;
    assert((z / 128) % 2 == (if (x / 128) % 2 != (y / 128) % 2 { 1u8 } else { 0u8 }))
        by (bit_vector)
        requires
            z == x ^ y,
    ;
    count_ones(z)
}

/// Hamming distance by a plain loop over the bytes. `None` when the buffers
/// differ in length.
pub fn hamming_scalar(a: &[u8], b: &[u8]) -> (distance: Option<u64>)
    requires
        a@.len() <= max_len(),
    ensures
        distance == distance_of(a@, b@),
{
    if a.len() != b.len() {
        return None;
    }
    let mut total: u64 = 0;
    let mut i: usize = 0;
    while i < a.len()
        invariant
            i <= a@.len() == b@.len(),
            a@.len() <= max_len(),
            total == prefix_distance(a@, b@, i as nat),
            total <= 8 * i,
        decreases a@.len() - i,
    {
        let d = differing_bits(a[i], b[i]);
        total = total + d as u64;
        i += 1;
    }
    Some(total)
}

/// Calls `simsimd`'s `u8::hamming`: `None` when the lengths differ, else the
/// count of differing bits, which the kernel reports as a whole number. The
/// bound on the length keeps every kernel's counter from overflowing.
#[verifier::external_body]
fn simsimd_hamming(a: &[u8], b: &[u8]) -> (distance: Option<u64>)
    requires
        a@.len() < SIMD_LEN_LIMIT,
    ensures
        distance == distance_of(a@, b@),
{
    match u8::hamming(a, b) {
        Some(d) => Some(d as u64),
        None => None,
    }
}

/// Hamming distance by the vectorised kernel, falling back on the scalar one
/// for buffers too long for it. `None` when the buffers differ in length.
pub fn hamming_simd(a: &[u8], b: &[u8]) -> (distance: Option<u64>)
    requires
        a@.len() <= max_len(),
    ensures
        distance == distance_of(a@, b@),
{
    if a.len() < SIMD_LEN_LIMIT {
        simsimd_hamming(a, b)
    } else {
        hamming_scalar(a, b)
    }
}

/// The two kernels agree: on the same pair of buffers, what the vectorised
/// kernel returns is what the scalar kernel returns.
pub proof fn lemma_kernels_agree(a: Seq<u8>, b: Seq<u8>, simd: Option<u64>, scalar: Option<u64>)
    requires
        simd == distance_of(a, b),
        scalar == distance_of(a, b),
    ensures
        simd == scalar,
        simd is Some <==> a.len() == b.len(),
{
}

} // verus!

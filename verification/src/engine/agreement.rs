//! What the Hamming scan measures: the Hamming distance between two
//! encodings is the number of components in which the encoded vectors
//! disagree in sign.

use vstd::prelude::*;

use crate::engine::bq::bit_value;
use crate::engine::bq::bit_weight;
use crate::engine::bq::lemma_packed_byte_bit;
use crate::engine::bq::pack_msb0;
use crate::engine::bq::packed_byte;
use crate::engine::bq::packed_len;
use crate::engine::bq::sign_bits;
use crate::engine::hamming::byte_bit;
use crate::engine::hamming::byte_distance;
use crate::engine::hamming::hamming;
use crate::engine::hamming::prefix_distance;

verus! {

/// 1 where two bit sequences differ at place `i`, else 0; past its end a
/// sequence counts as zeros.
pub open spec fn differs_at(a: Seq<bool>, b: Seq<bool>, i: int) -> nat {
    if bit_value(a, i) != bit_value(b, i) {
        1
    } else {
        0
    }
}

/// The number of places before `n` at which two bit sequences differ.
pub open spec fn disagreements(a: Seq<bool>, b: Seq<bool>, n: int) -> nat
    decreases n,
{
    if n <= 0 {
        0
    } else {
        disagreements(a, b, n - 1) + differs_at(a, b, n - 1)
    }
}

/// Bit `7 - j` of a packed byte, counted from the least significant one, is
/// the bit packed at place `j` of the byte.
proof fn lemma_byte_bit_of_packed(bits: Seq<bool>, k: int, j: int)
    requires
        0 <= j < 8,
    ensures
        byte_bit(packed_byte(bits, k), 7 - j) == bit_value(bits, 8 * k + j),
{
    lemma_packed_byte_bit(bits, k, j);
    let x = packed_byte(bits, k);
    assert(byte_bit(x, 7 - j) == (x as int / bit_weight(j)) % 2);
}

/// Two packed bytes differ in as many bits as the eight places packed into
/// them disagree.
proof fn lemma_packed_byte_distance(a: Seq<bool>, b: Seq<bool>, k: int)
    ensures
        byte_distance(packed_byte(a, k), packed_byte(b, k)) == differs_at(a, b, 8 * k) + differs_at(
            a,
            b,
            8 * k + 1,
        ) + differs_at(a, b, 8 * k + 2) + differs_at(a, b, 8 * k + 3) + differs_at(a, b, 8 * k + 4)
            + differs_at(a, b, 8 * k + 5) + differs_at(a, b, 8 * k + 6) + differs_at(
            a,
            b,
            8 * k + 7,
        ),
{
    lemma_byte_bit_of_packed(a, k, 0);
    lemma_byte_bit_of_packed(b, k, 0);
    lemma_byte_bit_of_packed(a, k, 1);
    lemma_byte_bit_of_packed(b, k, 1);
    lemma_byte_bit_of_packed(a, k, 2);
    lemma_byte_bit_of_packed(b, k, 2);
    lemma_byte_bit_of_packed(a, k, 3);
    lemma_byte_bit_of_packed(b, k, 3);
    lemma_byte_bit_of_packed(a, k, 4);
    lemma_byte_bit_of_packed(b, k, 4);
    lemma_byte_bit_of_packed(a, k, 5);
    lemma_byte_bit_of_packed(b, k, 5);
    lemma_byte_bit_of_packed(a, k, 6);
    lemma_byte_bit_of_packed(b, k, 6);
    lemma_byte_bit_of_packed(a, k, 7);
    lemma_byte_bit_of_packed(b, k, 7);
}

/// Counting eight places further adds the disagreements at those places.
proof fn lemma_disagreements_block(a: Seq<bool>, b: Seq<bool>, k: int)
    requires
        k >= 0,
    ensures
        disagreements(a, b, 8 * (k + 1)) == disagreements(a, b, 8 * k) + differs_at(a, b, 8 * k)
            + differs_at(a, b, 8 * k + 1) + differs_at(a, b, 8 * k + 2) + differs_at(
            a,
            b,
            8 * k + 3,
        ) + differs_at(a, b, 8 * k + 4) + differs_at(a, b, 8 * k + 5) + differs_at(
            a,
            b,
            8 * k + 6,
        ) + differs_at(a, b, 8 * k + 7),
{
    let base = 8 * k;
    assert(disagreements(a, b, base + 1) == disagreements(a, b, base) + differs_at(a, b, base));
    assert(disagreements(a, b, base + 2) == disagreements(a, b, base + 1) + differs_at(
        a,
        b,
        base + 1,
    ));
    assert(disagreements(a, b, base + 3) == disagreements(a, b, base + 2) + differs_at(
        a,
        b,
        base + 2,
    ));
    assert(disagreements(a, b, base + 4) == disagreements(a, b, base + 3) + differs_at(
        a,
        b,
        base + 3,
    ));
    assert(disagreements(a, b, base + 5) == disagreements(a, b, base + 4) + differs_at(
        a,
        b,
        base + 4,
    ));
    assert(disagreements(a, b, base + 6) == disagreements(a, b, base + 5) + differs_at(
        a,
        b,
        base + 5,
    ));
    assert(disagreements(a, b, base + 7) == disagreements(a, b, base + 6) + differs_at(
        a,
        b,
        base + 6,
    ));
    assert(disagreements(a, b, base + 8) == disagreements(a, b, base + 7) + differs_at(
        a,
        b,
        base + 7,
    ));
    assert(8 * (k + 1) == base + 8);
}

/// The first `m` bytes of two packings differ in as many bits as the first
/// `8 m` places of the packed sequences disagree.
proof fn lemma_prefix_counts_disagreements(a: Seq<bool>, b: Seq<bool>, m: nat)
    requires
        a.len() == b.len(),
        m <= packed_len(a.len()),
    ensures
        prefix_distance(pack_msb0(a), pack_msb0(b), m) == disagreements(a, b, 8 * (m as int)),
    decreases m,
{
    if m > 0 {
        let k = m - 1;
        lemma_prefix_counts_disagreements(a, b, k as nat);
        lemma_packed_byte_distance(a, b, k);
        lemma_disagreements_block(a, b, k);
        assert(pack_msb0(a)[k] == packed_byte(a, k));
        assert(pack_msb0(b)[k] == packed_byte(b, k));
    }
}

/// Past the end of both sequences nothing disagrees.
proof fn lemma_disagreements_past_end(a: Seq<bool>, b: Seq<bool>, n: int)
    requires
        a.len() == b.len(),
        n >= a.len(),
    ensures
        disagreements(a, b, n) == disagreements(a, b, a.len() as int),
    decreases n,
{
    if n > a.len() {
        lemma_disagreements_past_end(a, b, n - 1);
    }
}

/// The Hamming distance between the packings of two bit sequences of one
/// length is the number of places at which the sequences differ.
pub proof fn lemma_hamming_counts_disagreements(a: Seq<bool>, b: Seq<bool>)
    requires
        a.len() == b.len(),
    ensures
        hamming(pack_msb0(a), pack_msb0(b)) == disagreements(a, b, a.len() as int),
{
    let m = packed_len(a.len());
    lemma_prefix_counts_disagreements(a, b, m);
    lemma_disagreements_past_end(a, b, 8 * (m as int));
}

/// The Hamming distance between the encodings of two vectors of one length
/// is the number of components of which one is strictly positive and the
/// other is not.
pub proof fn lemma_encoded_distance(v: Seq<u32>, w: Seq<u32>)
    requires
        v.len() == w.len(),
    ensures
        hamming(pack_msb0(sign_bits(v)), pack_msb0(sign_bits(w))) == disagreements(
            sign_bits(v),
            sign_bits(w),
            v.len() as int,
        ),
{
    lemma_hamming_counts_disagreements(sign_bits(v), sign_bits(w));
}

} // verus!

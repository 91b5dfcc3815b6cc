//! Binary quantization: one sign bit per component, packed most significant
//! bit first.

use bitvec::order::Msb0;
use bitvec::vec::BitVec;
use vstd::prelude::*;

use crate::engine::binary32::is_positive;
use crate::engine::binary32::positive;

verus! {

/// A growable bit vector of the `bitvec` crate, `BitVec<u8, Msb0>`: bits
/// stored in bytes, most significant bit first.
#[verifier::external_body]
pub struct BitBuffer {
    inner: BitVec<u8, Msb0>,
}

/// The bits that a bit vector holds, first pushed first.
pub uninterp spec fn live_bits(bv: BitBuffer) -> Seq<bool>;

/// Whether a bit vector's storage begins at the first bit of its first byte
/// and holds zero in every bit past the last live one.
pub uninterp spec fn zero_padded(bv: BitBuffer) -> bool;

/// Largest number of bits that a bit vector can hold.
pub open spec fn max_bits() -> nat {
    (usize::MAX / 8) as nat
}

/// Number of bytes that hold `bits` packed bits.
pub open spec fn packed_len(bits: nat) -> nat {
    (bits + 7) / 8
}

/// Bit `i` of `bits` as 0 or 1, and 0 past the end.
pub open spec fn bit_value(bits: Seq<bool>, i: int) -> int {
    if 0 <= i < bits.len() && bits[i] {
        1
    } else {
        0
    }
}

/// Byte `k` of the packing: bit `8k` is worth 128, bit `8k + 7` is worth 1.
pub open spec fn packed_byte(bits: Seq<bool>, k: int) -> u8 {
    (128 * bit_value(bits, 8 * k) + 64 * bit_value(bits, 8 * k + 1) + 32 * bit_value(
        bits,
        8 * k + 2,
    ) + 16 * bit_value(bits, 8 * k + 3) + 8 * bit_value(bits, 8 * k + 4) + 4 * bit_value(
        bits,
        8 * k + 5,
    ) + 2 * bit_value(bits, 8 * k + 6) + bit_value(bits, 8 * k + 7)) as u8
}

/// The bits packed eight to a byte, most significant bit first, the last
/// byte filled up with zeros.
pub open spec fn pack_msb0(bits: Seq<bool>) -> Seq<u8> {
    Seq::new(packed_len(bits.len()), |k: int| packed_byte(bits, k))
}

/// Calls `BitVec::<u8, Msb0>::with_capacity`: an empty bit vector, with no
/// storage in use yet.
#[verifier::external_body]
fn bits_with_capacity(capacity: usize) -> (bv: BitBuffer)
    requires
        capacity <= max_bits(),
    ensures
        live_bits(bv) == Seq::<bool>::empty(),
        zero_padded(bv),
{
    BitBuffer { inner: BitVec::<u8, Msb0>::with_capacity(capacity) }
}

/// Calls `BitVec::push`: the bit is appended; a byte that the vector newly
/// takes into use starts out as zero, so zero padding is kept.
#[verifier::external_body]
fn bits_push(bv: &mut BitBuffer, value: bool)
    requires
        live_bits(*old(bv)).len() < max_bits(),
    ensures
        live_bits(*final(bv)) == live_bits(*old(bv)).push(value),
        zero_padded(*old(bv)) ==> zero_padded(*final(bv)),
{
    bv.inner.push(value)
}

/// Calls `BitVec::into_vec`: the storage bytes, which for a zero-padded
/// vector are exactly the packing of its bits.
#[verifier::external_body]
fn bits_into_vec(bv: BitBuffer) -> (bytes: Vec<u8>)
    requires
        zero_padded(bv),
    ensures
        bytes@ == pack_msb0(live_bits(bv)),
{
    bv.inner.into_vec()
}

/// The worth of bit `j` of a byte, counted from the most significant one.
pub open spec fn bit_weight(j: int) -> int {
    if j == 0 {
        128
    } else if j == 1 {
        64
    } else if j == 2 {
        32
    } else if j == 3 {
        16
    } else if j == 4 {
        8
    } else if j == 5 {
        4
    } else if j == 6 {
        2
    } else {
        1
    }
}

/// Bit `i` of a packed buffer: bit `i mod 8`, counted from the most
/// significant one, of byte `i / 8`.
#[verifier::opaque]
pub open spec fn bit_at(bytes: Seq<u8>, i: int) -> bool {
    (bytes[i / 8] as int / bit_weight(i % 8)) % 2 == 1
}

/// The sign bits of a vector of binary32 patterns: true where the component
/// is strictly positive.
pub open spec fn sign_bits(vector: Seq<u32>) -> Seq<bool> {
    Seq::new(vector.len(), |i: int| is_positive(vector[i]))
}

/// Reading bit `j` of a packed byte gives back the bit that was packed.
pub proof fn lemma_packed_byte_bit(bits: Seq<bool>, k: int, j: int)
    requires
        0 <= j < 8,
    ensures
        (packed_byte(bits, k) as int / bit_weight(j)) % 2 == bit_value(bits, 8 * k + j),
{
    let b0 = bit_value(bits, 8 * k);
    let b1 = bit_value(bits, 8 * k + 1);
    let b2 = bit_value(bits, 8 * k + 2);
    let b3 = bit_value(bits, 8 * k + 3);
    let b4 = bit_value(bits, 8 * k + 4);
    let b5 = bit_value(bits, 8 * k + 5);
    let b6 = bit_value(bits, 8 * k + 6);
    let b7 = bit_value(bits, 8 * k + 7);
    let sum = 128 * b0 + 64 * b1 + 32 * b2 + 16 * b3 + 8 * b4 + 4 * b5 + 2 * b6 + b7;
    assert(0 <= sum <= 255);
    assert(packed_byte(bits, k) as int == sum);
}

/// Packing keeps every bit in its place and fills the last byte with zeros.
pub proof fn lemma_pack_msb0_bits(bits: Seq<bool>)
    ensures
        pack_msb0(bits).len() == packed_len(bits.len()),
        forall|i: int|
            0 <= i < bits.len() ==> #[trigger] bit_at(pack_msb0(bits), i) == bits[i],
        forall|i: int|
            bits.len() <= i < 8 * packed_len(bits.len()) ==> !#[trigger] bit_at(
                pack_msb0(bits),
                i,
            ),
{
    reveal(bit_at);
    let packed = pack_msb0(bits);
    assert forall|i: int| 0 <= i < 8 * packed_len(bits.len()) implies (bit_at(packed, i) <==> (i
        < bits.len() && bits[i])) by {
        let k = i / 8;
        let j = i % 8;
        assert(0 <= k < packed_len(bits.len()));
        assert(packed[k] == packed_byte(bits, k));
        lemma_packed_byte_bit(bits, k, j);
        assert(8 * k + j == i);
    }
}

/// In the packed sign bits of a vector, bit `i` is set exactly where
/// component `i` is strictly positive, and the fill bits are clear.
pub proof fn lemma_sign_bits_packed(vector: Seq<u32>)
    ensures
        pack_msb0(sign_bits(vector)).len() == packed_len(vector.len()),
        forall|i: int|
            0 <= i < vector.len() ==> #[trigger] bit_at(pack_msb0(sign_bits(vector)), i)
                == is_positive(vector[i]),
        forall|i: int|
            vector.len() <= i < 8 * packed_len(vector.len()) ==> !#[trigger] bit_at(
                pack_msb0(sign_bits(vector)),
                i,
            ),
{
    lemma_pack_msb0_bits(sign_bits(vector));
}

/// Encodes a vector of binary32 patterns into its sign bits, packed eight to
/// a byte with the first component in the most significant bit. A bit is 1
/// exactly where the component is strictly positive; the bits that fill up
/// the last byte are 0.
pub fn encode_bq(vector: &[u32]) -> (encoded: Vec<u8>)
    requires
        vector@.len() <= max_bits(),
    ensures
        encoded@ == pack_msb0(sign_bits(vector@)),
        encoded@.len() == packed_len(vector@.len()),
        forall|i: int|
            0 <= i < vector@.len() ==> #[trigger] bit_at(encoded@, i) == is_positive(vector@[i]),
        forall|i: int| vector@.len() <= i < 8 * encoded@.len() ==> !#[trigger] bit_at(encoded@, i),
{
    let mut bv = bits_with_capacity(vector.len());
    let mut i: usize = 0;
    while i < vector.len()
        invariant
            i <= vector@.len() <= max_bits(),
            zero_padded(bv),
            live_bits(bv) == sign_bits(vector@.take(i as int)),
        decreases vector@.len() - i,
    {
        let bit = positive(vector[i]);
        bits_push(&mut bv, bit);
        proof {
            assert(sign_bits(vector@.take(i as int)).push(bit) =~= sign_bits(
                vector@.take(i as int + 1),
            ));
        }
        i += 1;
    }
    assert(vector@.take(i as int) =~= vector@);
    let encoded = bits_into_vec(bv);
    proof {
        lemma_sign_bits_packed(vector@);
    }
    encoded
}

} // verus!

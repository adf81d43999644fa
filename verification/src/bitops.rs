//! Bit-level addressing shared by the two policy virtual machines: bits of
//! byte strings and of 32-bit word arrays, least significant bit first.

use vstd::prelude::*;

verus! {

/// Bit `j` (least significant first) of the byte `b`.
pub open spec fn bit_of_byte(b: u8, j: int) -> bool {
    (b >> (j as u8)) & 1 == 1
}

/// Bit `i` of a byte sequence: bit `i % 8` of byte `i / 8`.
pub open spec fn byte_bit(bytes: Seq<u8>, i: int) -> bool {
    bit_of_byte(bytes[i / 8], i % 8)
}

/// Bit `k` of a sequence of 32-bit words: bit `k % 32` of word `k / 32`.
pub open spec fn word_bit(words: Seq<u32>, k: int) -> bool {
    (words[k / 32] >> ((k % 32) as u32)) & 1 == 1
}

/// `n` is a power of two.
pub open spec fn is_power_of_two(n: int) -> bool
    decreases n,
{
    if n <= 0 {
        false
    } else if n == 1 {
        true
    } else {
        n % 2 == 0 && is_power_of_two(n / 2)
    }
}

/// An or of two words is zero exactly when both are zero.
pub proof fn lemma_or_zero_u32(x: u32, y: u32)
    ensures
        (x | y == 0) <==> (x == 0 && y == 0),
{
    assert((x | y == 0) <==> (x == 0 && y == 0)) by (bit_vector);
}

/// Masking can only clear bits, so the result never exceeds the mask.
pub proof fn lemma_and_le_mask(x: usize, m: usize)
    ensures
        (x & m) <= m,
{
    assert((x & m) <= m) by (bit_vector);
}

/// A word shares no bit with the zero word.
pub proof fn lemma_and_zero_u32(x: u32)
    ensures
        x & 0 == 0,
{
    assert(x & 0 == 0) by (bit_vector);
}

/// Every bit of an all-ones word is set.
pub proof fn lemma_full_word_bit(x: u32, k: u32)
    requires
        x == 0xffff_ffffu32,
        k < 32,
    ensures
        (x >> k) & 1 == 1,
{
    assert((0xffff_ffffu32 >> k) & 1 == 1) by (bit_vector)
        requires
            k < 32,
    ;
}

} // verus!

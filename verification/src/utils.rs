//! Packing of two bytes into a 16-bit word and back, in both byte orders,
//! and the arithmetic of single bits.
//!
//! Register pairs are packed high byte first; words in memory are stored low
//! byte first. The two orders are kept as separately named helpers.

use vstd::prelude::*;

verus! {

/// The word whose high byte is `hi` and whose low byte is `lo`.
pub open spec fn word_of(hi: u8, lo: u8) -> u16 {
    (hi * 256 + lo) as u16
}

/// The high byte of `x`.
pub open spec fn high_byte(x: u16) -> u8 {
    (x / 256) as u8
}

/// The low byte of `x`.
pub open spec fn low_byte(x: u16) -> u8 {
    (x % 256) as u8
}

/// Whether the bit of weight `w` (a power of two) is set in `x`.
#[verifier::opaque]
pub open spec fn bit_of(x: u8, w: u8) -> bool {
    (x / w) % 2 == 1
}

/// `x` with the bit of weight `w` set.
pub open spec fn with_bit_set(x: u8, w: u8) -> u8 {
    if bit_of(x, w) {
        x
    } else {
        (x + w) as u8
    }
}

/// `x` with the bit of weight `w` cleared.
pub open spec fn with_bit_clear(x: u8, w: u8) -> u8 {
    if bit_of(x, w) {
        (x - w) as u8
    } else {
        x
    }
}

/// Whether `w` is the weight of one of the eight bits of a byte.
pub open spec fn is_bit_weight(w: u8) -> bool {
    w == 1 || w == 2 || w == 4 || w == 8 || w == 16 || w == 32 || w == 64 || w == 128
}

/// The weight of bit `b` of a byte, bit 0 being the lowest.
pub open spec fn bit_weight(b: u8) -> u8
    recommends
        b < 8,
{
    if b == 0 {
        1
    } else if b == 1 {
        2
    } else if b == 2 {
        4
    } else if b == 3 {
        8
    } else if b == 4 {
        16
    } else if b == 5 {
        32
    } else if b == 6 {
        64
    } else {
        128
    }
}

/// The mask of a bit, made by a shift, is the bit's weight.
pub proof fn lemma_bit_weight(b: u8)
    requires
        b < 8,
    ensures
        1u8 << b == bit_weight(b),
        is_bit_weight(bit_weight(b)),
{
    assert(1u8 << b == (if b == 0 {
        1u8
    } else if b == 1 {
        2u8
    } else if b == 2 {
        4u8
    } else if b == 3 {
        8u8
    } else if b == 4 {
        16u8
    } else if b == 5 {
        32u8
    } else if b == 6 {
        64u8
    } else {
        128u8
    })) by (bit_vector)
        requires
            b < 8,
    ;
}

/// Testing, setting and clearing one bit with a mask agree with `bit_of`,
/// `with_bit_set` and `with_bit_clear`.
pub proof fn lemma_single_bit(x: u8, w: u8)
    requires
        is_bit_weight(w),
    ensures
        (x & w != 0) == bit_of(x, w),
        (x | w) == with_bit_set(x, w),
        (x & !w) == with_bit_clear(x, w),
        x % 16 == 0 && w >= 16 ==> with_bit_set(x, w) % 16 == 0 && with_bit_clear(x, w) % 16 == 0,
{
    reveal(bit_of);
    assert(x % 16 == 0 && w >= 16 ==> (x | w) % 16 == 0 && (x & !w) % 16 == 0) by (bit_vector)
        requires
            w == 1 || w == 2 || w == 4 || w == 8 || w == 16 || w == 32 || w == 64 || w == 128,
    ;
    assert((x & w != 0) == ((x / w) % 2 == 1) && (x | w) == (if (x / w) % 2 == 1 {
        x
    } else {
        (x + w) as u8
    }) && (x & !w) == (if (x / w) % 2 == 1 {
        (x - w) as u8
    } else {
        x
    })) by (bit_vector)
        requires
            w == 1 || w == 2 || w == 4 || w == 8 || w == 16 || w == 32 || w == 64 || w == 128,
    ;
}

proof fn lemma_pack(x: u8, y: u8)
    by (bit_vector)
    ensures
        (x as u16) << 8 | y as u16 == x as u16 * 256 + y as u16,
{
}

proof fn lemma_unpack(x: u16)
    by (bit_vector)
    ensures
        (x & 0xff00) >> 8 == x / 256,
        x & 0x00ff == x % 256,
        x / 256 < 256,
{
}

/// Joins two bytes into a word, most significant byte first.
pub fn join_8_to_16(x: u8, y: u8) -> (r: u16)
    ensures
        r == word_of(x, y),
{
    proof {
        lemma_pack(x, y);
    }
    (x as u16) << 8 | y as u16
}

/// Splits a word into its bytes, most significant byte first.
pub fn split_16_to_8(x: u16) -> (r: (u8, u8))
    ensures
        r == (high_byte(x), low_byte(x)),
{
    proof {
        lemma_unpack(x);
    }
    (((x & 0xff00) >> 8) as u8, (x & 0x00ff) as u8)
}

/// Joins two bytes into a word, least significant byte first.
pub fn join_8_to_16_lsf(x: u8, y: u8) -> (r: u16)
    ensures
        r == word_of(y, x),
{
    proof {
        lemma_pack(y, x);
    }
    (y as u16) << 8 | x as u16
}

/// Splits a word into its bytes, least significant byte first.
pub fn split_16_to_8_lsf(x: u16) -> (r: (u8, u8))
    ensures
        r == (low_byte(x), high_byte(x)),
{
    proof {
        lemma_unpack(x);
    }
    ((x & 0x00ff) as u8, ((x & 0xff00) >> 8) as u8)
}

/// Splitting a word and joining the halves again gives the word back, in
/// either byte order, and joining two bytes and splitting the word gives the
/// two bytes back.
pub proof fn lemma_join_split(hi: u8, lo: u8, x: u16)
    ensures
        high_byte(word_of(hi, lo)) == hi,
        low_byte(word_of(hi, lo)) == lo,
        word_of(high_byte(x), low_byte(x)) == x,
{
}

} // verus!

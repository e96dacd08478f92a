//! Fixed-width encodings of physical quantities.
//!
//! Single-precision values travel as the two 16-bit halves of their bit
//! pattern. A coordinate travels as a 24-bit two's-complement count of
//! thousandths, split into a 16-bit low word and an 8-bit high byte.

use vstd::prelude::*;

verus! {

/// Bits 0 to 15 of a 32-bit pattern.
pub open spec fn low16(bits: u32) -> u16 {
    (bits % 0x1_0000) as u16
}

/// Bits 16 to 31 of a 32-bit pattern.
pub open spec fn high16(bits: u32) -> u16 {
    (bits / 0x1_0000) as u16
}

/// The 32-bit pattern whose halves are `low` and `high`.
pub open spec fn rejoin(low: u16, high: u16) -> u32 {
    (low + 0x1_0000 * high) as u32
}

/// Splits the bit pattern of a single-precision value into its low and high
/// halves; rejoining them gives the pattern back, bit for bit.
pub fn encode_f32_halves(bits: u32) -> (halves: (u16, u16))
    ensures
        halves.0 == low16(bits),
        halves.1 == high16(bits),
        rejoin(halves.0, halves.1) == bits,
{
    ((bits % 0x1_0000) as u16, (bits / 0x1_0000) as u16)
}

/// The high half of the bit pattern of a single-precision value.
pub fn encode_f32_high_half(bits: u32) -> (high: u16)
    ensures
        high == high16(bits),
{
    (bits / 0x1_0000) as u16
}

/// Nothing is lost between a 32-bit pattern and its two halves.
pub proof fn lemma_halves_rejoin(bits: u32)
    ensures
        rejoin(low16(bits), high16(bits)) == bits,
{
}

/// Two halves are the halves of the pattern that they rejoin to.
pub proof fn lemma_rejoin_halves(low: u16, high: u16)
    ensures
        low16(rejoin(low, high)) == low,
        high16(rejoin(low, high)) == high,
{
}

/// The low word of a signed count: its residue modulo 2^16.
pub open spec fn low_word(count: int) -> u16 {
    (count % 0x1_0000) as u16
}

/// The high byte of a signed count: the floor of count / 2^16, modulo 2^8.
/// For a count of 24 bits this is its sign-extended top byte.
pub open spec fn high_byte(count: int) -> u8 {
    ((count / 0x1_0000) % 0x100) as u8
}

/// Splits a signed 32-bit count into its low word and high byte. The shift
/// is arithmetic, so a negative count of 24 bits gets a high byte of 0xFF
/// down to 0x80.
pub fn split_count(count: i32) -> (words: (u16, u8))
    ensures
        words.0 == low_word(count as int),
        words.1 == high_byte(count as int),
{
    let low: i32 = count & 0xFFFF;
    let high: i32 = (count >> 16) & 0xFF;
    assert(0 <= low < 0x1_0000 && 0 <= high < 0x100) by (bit_vector)
        requires
            low == count & 0xFFFF,
            high == (count >> 16) & 0xFF,
    ;
    assert(low == count % 0x1_0000) by (bit_vector)
        requires
            low == count & 0xFFFF,
    ;
    assert(high == (count / 0x1_0000) % 0x100) by (bit_vector)
        requires
            high == (count >> 16) & 0xFF,
    ;
    (low as u16, high as u8)
}

/// The signed count that a low word and a high byte stand for: the high
/// byte is taken in two's complement and weighs 2^16.
pub open spec fn rejoin_count(low: u16, high: u8) -> int {
    if high >= 0x80 {
        low + 0x1_0000 * (high - 0x100)
    } else {
        low + 0x1_0000 * high
    }
}

/// A count of 24 bits comes back from its low word and high byte.
pub proof fn lemma_count_round_trip(count: int)
    requires
        -0x80_0000 <= count < 0x80_0000,
    ensures
        rejoin_count(low_word(count), high_byte(count)) == count,
{
}

/// Beyond 24 bits a count aliases: what comes back differs from it by a
/// multiple of 2^24 and lies in the 24-bit range.
pub proof fn lemma_count_aliases(count: int)
    ensures
        -0x80_0000 <= rejoin_count(low_word(count), high_byte(count)) < 0x80_0000,
        (count - rejoin_count(low_word(count), high_byte(count))) % 0x100_0000 == 0,
{
}

} // verus!

//! Register codec: how raw 16-bit holding registers become tag values.
//!
//! A 32-bit real occupies two consecutive registers. The first register read is the
//! high half of the bit pattern and the second the low half, whatever the byte order
//! of the machine this runs on.

use vstd::prelude::*;

verus! {

/// The bit pattern that two registers denote, high word first.
pub open spec fn real_pattern(word0: u16, word1: u16) -> int {
    word0 as int * 0x1_0000 + word1 as int
}

/// The register that holds the high half of a bit pattern.
pub open spec fn high_word(bits: u32) -> int {
    bits as int / 0x1_0000
}

/// The register that holds the low half of a bit pattern.
pub open spec fn low_word(bits: u32) -> int {
    bits as int % 0x1_0000
}

/// An integer tag is the register itself.
pub fn decode_integer(word: u16) -> (value: u16)
    ensures
        value == word,
{
    word
}

/// Joins two registers into the binary32 bit pattern of a real tag.
pub fn decode_real(word0: u16, word1: u16) -> (bits: u32)
    ensures
        bits as int == real_pattern(word0, word1),
{
    let high: u32 = word0 as u32;
    let low: u32 = word1 as u32;
    assert((high << 16) | low == high * 0x1_0000 + low) by (bit_vector)
        requires
            high < 0x1_0000,
            low < 0x1_0000,
    ;
    (high << 16) | low
}

/// Splits a binary32 bit pattern into the two registers that carry it, high word first.
pub fn encode_real(bits: u32) -> (words: (u16, u16))
    ensures
        words.0 as int == high_word(bits),
        words.1 as int == low_word(bits),
{
    assert(bits >> 16 == bits / 0x1_0000 && bits >> 16 < 0x1_0000) by (bit_vector);
    assert(bits & 0xffff == bits % 0x1_0000 && bits & 0xffff < 0x1_0000) by (bit_vector);
    ((bits >> 16) as u16, (bits & 0xffff) as u16)
}

/// Decoding two registers and encoding the result gives the two registers back.
pub proof fn lemma_decode_then_encode(word0: u16, word1: u16)
    ensures
        0 <= real_pattern(word0, word1) <= u32::MAX,
        high_word(real_pattern(word0, word1) as u32) == word0,
        low_word(real_pattern(word0, word1) as u32) == word1,
{
}

/// Encoding a bit pattern and decoding the two registers gives the bit pattern back.
pub proof fn lemma_encode_then_decode(bits: u32)
    ensures
        0 <= high_word(bits) <= u16::MAX,
        0 <= low_word(bits) <= u16::MAX,
        real_pattern(high_word(bits) as u16, low_word(bits) as u16) == bits,
{
}

} // verus!

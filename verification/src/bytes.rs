//! Big-endian packing of bytes into wider integers and back.

use vstd::prelude::*;

verus! {

/// The integer that two bytes spell, most significant byte first.
pub open spec fn be16(hi: u8, lo: u8) -> int {
    hi as int * 256 + lo as int
}

/// The integer that four bytes spell, most significant byte first.
pub open spec fn be32(b0: u8, b1: u8, b2: u8, b3: u8) -> int {
    b0 as int * 16777216 + b1 as int * 65536 + b2 as int * 256 + b3 as int
}

/// The unsigned 16-bit image of a signed value in two's complement.
pub open spec fn twos_complement(v: i16) -> int {
    if v < 0 {
        v as int + 65536
    } else {
        v as int
    }
}

/// The signed value whose two's complement image is `raw`.
pub open spec fn from_twos_complement(raw: int) -> int {
    if raw >= 32768 {
        raw - 65536
    } else {
        raw
    }
}

/// Byte `index` (0 is the most significant) of a 32-bit word.
pub open spec fn word_byte(word: u32, index: int) -> int {
    if index == 0 {
        word as int / 16777216
    } else if index == 1 {
        (word as int / 65536) % 256
    } else if index == 2 {
        (word as int / 256) % 256
    } else {
        word as int % 256
    }
}

pub fn make_u16(hi: u8, lo: u8) -> (r: u16)
    ensures
        r as int == be16(hi, lo),
{
    (hi as u16) * 256 + (lo as u16)
}

pub fn make_i16(hi: u8, lo: u8) -> (r: i16)
    ensures
        r as int == from_twos_complement(be16(hi, lo)),
{
    let raw: u16 = make_u16(hi, lo);
    if raw >= 32768 {
        (raw as i32 - 65536) as i16
    } else {
        raw as i16
    }
}

pub fn make_u32(b0: u8, b1: u8, b2: u8, b3: u8) -> (r: u32)
    ensures
        r as int == be32(b0, b1, b2, b3),
{
    (b0 as u32) * 16777216 + (b1 as u32) * 65536 + (b2 as u32) * 256 + (b3 as u32)
}

/// The high and the low byte of an unsigned 16-bit value.
pub fn split_u16(v: u16) -> (r: (u8, u8))
    ensures
        r.0 as int == v as int / 256,
        r.1 as int == v as int % 256,
        be16(r.0, r.1) == v as int,
{
    ((v / 256) as u8, (v % 256) as u8)
}

/// The high and the low byte of a signed 16-bit value in two's complement.
pub fn split_i16(v: i16) -> (r: (u8, u8))
    ensures
        r.0 as int == twos_complement(v) / 256,
        r.1 as int == twos_complement(v) % 256,
        from_twos_complement(be16(r.0, r.1)) == v as int,
{
    let raw: u16 = if v < 0 {
        (v as i32 + 65536) as u16
    } else {
        v as u16
    };
    split_u16(raw)
}

/// The four bytes of a 32-bit word, most significant first.
pub fn split_u32(word: u32) -> (r: (u8, u8, u8, u8))
    ensures
        r.0 as int == word_byte(word, 0),
        r.1 as int == word_byte(word, 1),
        r.2 as int == word_byte(word, 2),
        r.3 as int == word_byte(word, 3),
        be32(r.0, r.1, r.2, r.3) == word as int,
{
    (
        (word / 16777216) as u8,
        ((word / 65536) % 256) as u8,
        ((word / 256) % 256) as u8,
        (word % 256) as u8,
    )
}

} // verus!

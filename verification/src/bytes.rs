//! Big-endian numbers.

use vstd::prelude::*;

verus! {

/// The number that the first two bytes of `s` spell, the first being the
/// more significant.
pub open spec fn spec_u16_be(s: Seq<u8>) -> int
    recommends
        s.len() >= 2,
{
    s[0] as int * 0x100 + s[1] as int
}

/// The number that the first four bytes of `s` spell, the first being the
/// most significant.
pub open spec fn spec_u32_be(s: Seq<u8>) -> int
    recommends
        s.len() >= 4,
{
    s[0] as int * 0x100_0000 + s[1] as int * 0x1_0000 + s[2] as int * 0x100 + s[3] as int
}

/// Shifting the first byte up by eight bits and or-ing the second in gives
/// the number that the two spell.
pub proof fn lemma_u16_be_bits(b0: u8, b1: u8)
    ensures
        ((b0 as u16) << 8 | b1 as u16) as int == b0 as int * 0x100 + b1 as int,
{
    assert(((b0 as u16) << 8 | b1 as u16) == b0 as u16 * 0x100 + b1 as u16) by (bit_vector);
}

/// Shifting the four bytes to their places and or-ing them gives the number
/// that they spell.
pub proof fn lemma_u32_be_bits(b0: u8, b1: u8, b2: u8, b3: u8)
    ensures
        ((b0 as u32) << 24 | (b1 as u32) << 16 | (b2 as u32) << 8 | b3 as u32) as int == b0 as int
            * 0x100_0000 + b1 as int * 0x1_0000 + b2 as int * 0x100 + b3 as int,
{
    assert(((b0 as u32) << 24 | (b1 as u32) << 16 | (b2 as u32) << 8 | b3 as u32) == b0 as u32
        * 0x100_0000 + b1 as u32 * 0x1_0000 + b2 as u32 * 0x100 + b3 as u32) by (bit_vector);
}

/// Combines two bytes into a 16-bit number, most significant byte first.
pub fn u16_be(data: &[u8]) -> (value: u16)
    requires
        data@.len() == 2,
    ensures
        value as int == spec_u16_be(data@),
        value == (data@[0] as u16) << 8 | data@[1] as u16,
{
    let b0: u8 = data[0];
    let b1: u8 = data[1];
    proof {
        lemma_u16_be_bits(b0, b1);
    }
    (b0 as u16) << 8 | b1 as u16
}

/// Combines four bytes into a 32-bit number, most significant byte first.
pub fn u32_be(data: &[u8]) -> (value: u32)
    requires
        data@.len() == 4,
    ensures
        value as int == spec_u32_be(data@),
        value == (data@[0] as u32) << 24 | (data@[1] as u32) << 16 | (data@[2] as u32) << 8
            | data@[3] as u32,
{
    let b0: u8 = data[0];
    let b1: u8 = data[1];
    let b2: u8 = data[2];
    let b3: u8 = data[3];
    proof {
        lemma_u32_be_bits(b0, b1, b2, b3);
    }
    (b0 as u32) << 24 | (b1 as u32) << 16 | (b2 as u32) << 8 | b3 as u32
}

/// The two bytes that spell `value`, the more significant first.
pub open spec fn spec_u16_bytes(value: u16) -> Seq<u8> {
    seq![(value / 0x100) as u8, (value % 0x100) as u8]
}

/// The four bytes that spell `value`, the most significant first.
pub open spec fn spec_u32_bytes(value: u32) -> Seq<u8> {
    seq![
        (value / 0x100_0000) as u8,
        (value / 0x1_0000 % 0x100) as u8,
        (value / 0x100 % 0x100) as u8,
        (value % 0x100) as u8,
    ]
}

/// The bytes that spell a 16-bit number spell that number, whatever follows
/// them.
pub proof fn lemma_u16_bytes_spell(value: u16, rest: Seq<u8>)
    ensures
        spec_u16_bytes(value).len() == 2,
        spec_u16_be(spec_u16_bytes(value) + rest) == value,
{
    let s = spec_u16_bytes(value) + rest;
    assert(s[0] == (value / 0x100) as u8);
    assert(s[1] == (value % 0x100) as u8);
}

/// The bytes that spell a 32-bit number spell that number, whatever follows
/// them.
pub proof fn lemma_u32_bytes_spell(value: u32, rest: Seq<u8>)
    ensures
        spec_u32_bytes(value).len() == 4,
        spec_u32_be(spec_u32_bytes(value) + rest) == value,
{
    let s = spec_u32_bytes(value) + rest;
    assert(s[0] == (value / 0x100_0000) as u8);
    assert(s[1] == (value / 0x1_0000 % 0x100) as u8);
    assert(s[2] == (value / 0x100 % 0x100) as u8);
    assert(s[3] == (value % 0x100) as u8);
}

} // verus!

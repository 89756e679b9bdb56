//! Integer codecs of the wire format: the 24-bit sign-and-magnitude channel
//! samples and the little-endian 16-bit motion samples.

use vstd::prelude::*;

verus! {

/// The 24-bit unsigned magnitude that three big-endian bytes spell.
pub open spec fn be24(b0: u8, b1: u8, b2: u8) -> int {
    b0 as int * 65536 + b1 as int * 256 + b2 as int
}

/// The value of one channel sample. Bit 23 is a sign flag over the low 23
/// bits: a set flag negates the magnitude that the other bits hold.
pub open spec fn i24_value(b0: u8, b1: u8, b2: u8) -> int {
    if b0 >= 128 {
        -(be24(b0, b1, b2) - 8388608)
    } else {
        be24(b0, b1, b2)
    }
}

/// The value of a little-endian pair of bytes.
pub open spec fn u16_le_value(lo: u8, hi: u8) -> int {
    lo as int + hi as int * 256
}

proof fn lemma_be24_bits(b0: u8, b1: u8, b2: u8)
    ensures
        (((0xFFi32 & b0 as i32) << 16) | ((0xFFi32 & b1 as i32) << 8) | (0xFFi32 & b2 as i32))
            == b0 as i32 * 65536 + b1 as i32 * 256 + b2 as i32,
{
    assert((((0xFFi32 & b0 as i32) << 16) | ((0xFFi32 & b1 as i32) << 8) | (0xFFi32 & b2 as i32))
        == b0 as i32 * 65536 + b1 as i32 * 256 + b2 as i32) by (bit_vector);
}

proof fn lemma_sign_split(m: i32)
    requires
        0 <= m < 16777216,
    ensures
        (m & 0x00800000) > 0 <==> m >= 8388608,
        m >= 8388608 ==> (m & 0x007FFFFF) == m - 8388608,
        (m & 0x00FFFFFF) == m,
{
    assert(0 <= m < 16777216 ==> ((m & 0x00800000) > 0 <==> m >= 8388608)) by (bit_vector);
    assert(0 <= m < 16777216 && m >= 8388608 ==> (m & 0x007FFFFF) == m - 8388608) by (bit_vector);
    assert(0 <= m < 16777216 ==> (m & 0x00FFFFFF) == m) by (bit_vector);
}

/// Decodes one 24-bit channel sample from its three big-endian bytes.
pub fn i24toi32(bytes: &[u8]) -> (value: i32)
    requires
        bytes@.len() == 3,
    ensures
        value == i24_value(bytes@[0], bytes@[1], bytes@[2]),
        -8388607 <= value <= 8388607,
{
    let b0: u8 = bytes[0];
    let b1: u8 = bytes[1];
    let b2: u8 = bytes[2];
    let mut result: i32 = ((0xFF & b0 as i32) << 16) | ((0xFF & b1 as i32) << 8) | (0xFF & b2 as i32);
    proof {
        lemma_be24_bits(b0, b1, b2);
        lemma_sign_split(result);
    }
    if (result & 0x00800000) > 0 {
        result = -(result & 0x007FFFFF);
    } else {
        result &= 0x00FFFFFF;
    }
    result
}

/// Decodes one motion sample from its low and high byte.
pub fn u16_from_le(lo: u8, hi: u8) -> (value: u16)
    ensures
        value == u16_le_value(lo, hi),
{
    assert((lo as u16 | ((hi as u16) << 8)) == lo as u16 + hi as u16 * 256) by (bit_vector);
    lo as u16 | ((hi as u16) << 8)
}

} // verus!

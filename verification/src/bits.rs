//! Bit-level facts about bytes and words used across the devices: masks
//! of low bits are remainders, shifts are quotients.
use vstd::prelude::*;

verus! {

pub proof fn lemma_byte_fields(x: u8)
    by (bit_vector)
    ensures
        x & 0x01 == x % 2,
        x & 0x03 == x % 4,
        x & 0x07 == x % 8,
        x & 0x0F == x % 16,
        x & 0x1F == x % 32,
        x & 0x3F == x % 64,
        x >> 3 == x / 8,
        (x >> 3) & 0x07 == (x / 8) % 8,
        x >> 1 == x / 2,
        (x >> 1) & 0x03 == (x % 8) / 2,
        (x >> 2) & 0x03 == (x / 4) % 4,
        (x >> 4) & 0x07 == (x / 16) % 8,
        (x >> 4) & 0x0F == x / 16,
        (x >> 5) & 0x03 == (x / 32) % 4,
        (x & 0x80 != 0) == (x >= 0x80),
        (x & 0x40 != 0) == ((x / 64) % 2 == 1),
        x & 0x07 < 8,
        (x >> 4) & 0x07 < 8,
        x & 0x0F <= 15,
        (x & !0x02u8) | 0x02 == x | 0x02,
        (((x >> 4) & 1) << 1) | ((x >> 5) & 1) < 4,
        (0u8 | 0x40u8 | (x & 0x3F)) & 0x80 == 0,
        (0u8 | 0u8 | (x & 0x3F)) & 0x80 == 0,
{
}

pub proof fn lemma_word_fields(x: u16)
    by (bit_vector)
    ensures
        x & 0x01 == x % 2,
        x & 0xFF == x % 256,
        x & 0x07 == x % 8,
        x < 0x1000 ==> x & 0x2000 == 0,
{
}

} // verus!

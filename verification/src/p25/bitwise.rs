//! Bit-level facts shared by the decoders: masks as remainders, XOR as
//! addition in GF(2^n), and the effect of flipping or shifting single bits.

use vstd::prelude::*;

verus! {

/// XOR is a commutative, associative involution with identity zero, and it
/// keeps 2-bit and 6-bit values inside their range.
pub proof fn lemma_xor_u8(a: u8, b: u8, c: u8)
    by (bit_vector)
    ensures
        a ^ a == 0,
        a ^ 0 == a,
        0 ^ a == a,
        a ^ b == b ^ a,
        (a ^ b) ^ c == a ^ (b ^ c),
        a < 64 && b < 64 ==> a ^ b < 64,
        a < 64 && b < 64 ==> (a ^ b) % 64 == a ^ b,
        a < 4 && b < 4 ==> a ^ b < 4,
{
}

/// Low-bit masks of a byte are remainders, and the high bits are quotients.
pub proof fn lemma_mask_u8(v: u8)
    by (bit_vector)
    ensures
        v & 3 == v % 4,
        v & 0x3F == v % 64,
        v & 1 == v % 2,
        v & 0x0F == v % 16,
        v >> 4u8 == v / 16,
        v >> 6u8 == 0 ==> (v as u16) >> 12u16 == 0,
        (v as u16) >> 9u16 == 0,
        (v as u16) < 0x100,
        (v & 0x80 != 0) == (v >= 0x80),
        (v & 0x40 != 0) == (v % 0x80 >= 0x40),
        (v & 0x80 != 0) == ((v / 128) % 2 == 1),
        (v & 0x40 != 0) == ((v / 64) % 2 == 1),
        (v & 0x20 != 0) == ((v / 32) % 2 == 1),
        (v & 0x10 != 0) == ((v / 16) % 2 == 1),
        v & 0x07 == v % 8,
        v >> 7u8 == v / 128,
{
}

/// Low-bit masks of a 16-bit value are remainders, and the high bits are
/// quotients.
pub proof fn lemma_mask_u16(v: u16)
    by (bit_vector)
    ensures
        v & 0x0FFF == v % 4096,
        (v >> 12u16) & 0x0F == v / 4096,
        v >> 12u16 == v / 4096,
        v & 0xFF == v % 256,
        v >> 8u16 == v / 256,
        v & 1 == v % 2,
        (v as u32) >> 17u32 == 0,
        (v as u32 as u64) < 0x1_0000,
        v < 0x1000 ==> v << 4u16 == v * 16,
        v & 0x3FF == v % 1024,
        (v & 0x3FF) >> 10u16 == 0,
{
}

/// Low-bit masks of a 32-bit value are remainders, and the high bits are
/// quotients.
pub proof fn lemma_mask_u32(v: u32)
    by (bit_vector)
    ensures
        v & 0x00FF_FFFF == v % 0x100_0000,
        v & 0x000F_FFFF == v % 0x10_0000,
        v & 0xFFFF == v % 0x1_0000,
        v & 0xFF == v % 256,
        v >> 8u32 == v / 256,
        v >> 16u32 == v / 0x1_0000,
        v & 1 == v % 2,
        v >> 18u32 == 0 ==> v >> 24u32 == 0,
        v >> 23u32 == 0 ==> v < 0x80_0000,
        v >> 15u32 == 0 ==> v < 0x8000,
        v < 0x80_0000 ==> v >> 23u32 == 0,
        v < 0x8000 ==> (v as u16) >> 15u16 == 0 && (v as u16) as u32 == v,
        v & 1 < 2,
{
}

/// Masks of a 64-bit word stay below the mask.
pub proof fn lemma_mask_u64(x: u64)
    by (bit_vector)
    ensures
        x & 0x0FFF < 4096,
        x & 0x0F < 16,
        x & 0xFF < 256,
        x & 0xFFFF < 0x1_0000,
        x & 0xFF_FFFF < 0x100_0000,
        x & 0x0F == x % 16,
        x & 0xFF == x % 256,
        x & 0x0FFF == x % 4096,
        x & 0xFFFF == x % 0x1_0000,
{
}

/// A single bit of a 64-bit word is 0 or 1; flipping bit `p` changes bit
/// `p` and no other; zero has no bits set.
pub proof fn lemma_bit_u64(x: u64, b: u64, p: u64)
    by (bit_vector)
    requires
        b < 64,
        p < 64,
    ensures
        (x >> b) & 1 == 0 || (x >> b) & 1 == 1,
        (x >> b) & 1 != 0 ==> (x >> b) & 1 == 1,
        ((x ^ (1u64 << p)) >> b) & 1 == if b == p {
            1u64 ^ ((x >> b) & 1)
        } else {
            (x >> b) & 1
        },
        (x >> b) & 1 == 0 ==> 1u64 ^ ((x >> b) & 1) == 1,
        (x >> b) & 1 == 1 ==> 1u64 ^ ((x >> b) & 1) == 0,
        (0u64 >> b) & 1 == 0,
        x ^ x == 0,
        x | 0 == x,
        x < 0x8000_0000_0000_0000 && p < 63 ==> x ^ (1u64 << p) < 0x8000_0000_0000_0000,
{
}

/// Facts about small words, in one place: dibits shifted into a word or
/// packed into a nibble, bits of a byte, small powers of two as shifts,
/// and exclusive or undone by repeating it.
proof fn lemma_small_words(x: u8, b: u8, h: u8, l: u8, w: u64, d: u64, p: u32, q: u32, m: u16, n: u16)
    by (bit_vector)
    ensures
        (w < 0x4000_0000_0000_0000 && d < 4) ==> (w << 2u64) | d == w * 4 + d,
        (h < 4 && l < 4) ==> (h << 2u8) | l == h * 4 + l && (h << 2u8) | l < 16,
        (x >> b) & 1 < 2,
        1u64 << 0u64 == 1,
        1u64 << 4u64 == 16,
        1u64 << 8u64 == 256,
        1u64 << 16u64 == 0x1_0000,
        1u64 << 11u64 == 0x800,
        1u64 << 12u64 == 0x1000,
        (p ^ q) ^ q == p,
        (m ^ n) ^ n == m,
        (0u32 >> p) & 1 == 0,
        (((0u16 << 1u16) | 0u16) as u16) == 0,
        x < 64 ==> x as int == ((x >> 5u8) & 1) * 32 + ((x >> 4u8) & 1) * 16 + ((x >> 3u8) & 1) * 8 + ((x
            >> 2u8) & 1) * 4 + ((x >> 1u8) & 1) * 2 + ((x >> 0u8) & 1),
        x < 64 ==> x / 16 == ((x >> 5u8) & 1) * 2 + ((x >> 4u8) & 1),
        x % 16 == ((x >> 3u8) & 1) * 8 + ((x >> 2u8) & 1) * 4 + ((x >> 1u8) & 1) * 2 + ((x >> 0u8) & 1),
        x < 64 ==> x / 4 == ((x >> 5u8) & 1) * 8 + ((x >> 4u8) & 1) * 4 + ((x >> 3u8) & 1) * 2 + ((x >> 2u8)
            & 1),
        x % 4 == ((x >> 1u8) & 1) * 2 + ((x >> 0u8) & 1),
{
}

/// A 6-bit symbol and its high and low parts as sums of its bits.
pub proof fn lemma_symbol_bits(x: u8)
    ensures
        x < 64 ==> x as int == ((x >> 5u8) & 1) * 32 + ((x >> 4u8) & 1) * 16 + ((x >> 3u8) & 1) * 8 + ((x
            >> 2u8) & 1) * 4 + ((x >> 1u8) & 1) * 2 + ((x >> 0u8) & 1),
        x < 64 ==> x / 16 == ((x >> 5u8) & 1) * 2 + ((x >> 4u8) & 1),
        x % 16 == ((x >> 3u8) & 1) * 8 + ((x >> 2u8) & 1) * 4 + ((x >> 1u8) & 1) * 2 + ((x >> 0u8) & 1),
        x < 64 ==> x / 4 == ((x >> 5u8) & 1) * 8 + ((x >> 4u8) & 1) * 4 + ((x >> 3u8) & 1) * 2 + ((x >> 2u8)
            & 1),
        x % 4 == ((x >> 1u8) & 1) * 2 + ((x >> 0u8) & 1),
{
    lemma_small_words(x, 0, 0, 0, 0, 0, 0, 0, 0, 0);
}

/// Zero has no bits set, and shifting a zero bit into zero leaves zero.
pub proof fn lemma_zero_bits(p: u32)
    ensures
        (0u32 >> p) & 1 == 0,
        (((0u16 << 1u16) | 0u16) as u16) == 0,
{
    lemma_small_words(0, 0, 0, 0, 0, 0, p, 0, 0, 0);
}

/// Shifting in a dibit below the low end of a word multiplies by four and
/// adds it.
pub proof fn lemma_shl2_or(w: u64, b: u64)
    requires
        w < 0x4000_0000_0000_0000,
        b < 4,
    ensures
        (w << 2u64) | b == w * 4 + b,
{
    lemma_small_words(0, 0, 0, 0, w, b, 0, 0, 0, 0);
}

/// Two dibits packed high-then-low form a 4-bit value.
pub proof fn lemma_pack_dibits(h: u8, l: u8)
    requires
        h < 4,
        l < 4,
    ensures
        (h << 2u8) | l == h * 4 + l,
        (h << 2u8) | l < 16,
{
    lemma_small_words(0, 0, h, l, 0, 0, 0, 0, 0, 0);
}

/// XOR of values below a power of two stays below it.
pub proof fn lemma_xor_bound(a: u32, b: u32, c: u16, e: u16)
    by (bit_vector)
    ensures
        c < 0x800 && e < 0x800 ==> c ^ e < 0x800,
        c < 0x1000 && e < 0x1000 ==> c ^ e < 0x1000,
        c < 0x8000 && e < 0x8000 ==> c ^ e < 0x8000,
        c < 0x8000 ==> (c >> 4u16) < 0x800,
        e < 12 ==> (1u16 << e) < 0x1000,
        1u16 << 11u16 == 0x800,
        a < 0x800 && b < 0x800 ==> a ^ b < 0x800,
        a < 0x1000 && b < 0x1000 ==> a ^ b < 0x1000,
        a < 0x8000 && b < 0x8000 ==> a ^ b < 0x8000,
        a < 0x80_0000 && b < 0x80_0000 ==> a ^ b < 0x80_0000,
        a < 0x80_0000 ==> (a >> 11u32) < 0x1000,
        a < 0x8000 ==> (a >> 4u32) < 0x800,
        (a as u16 as u32) == a % 0x1_0000,
{
}

/// A bit of a byte is 0 or 1.
pub proof fn lemma_bit_u8(x: u8, b: u8)
    ensures
        (x >> b) & 1 < 2,
{
    lemma_small_words(x, b, 0, 0, 0, 0, 0, 0, 0, 0);
}

/// Small powers of two as shifts.
pub proof fn lemma_pow2_shifts()
    ensures
        1u64 << 0u64 == 1,
        1u64 << 4u64 == 16,
        1u64 << 8u64 == 256,
        1u64 << 16u64 == 0x1_0000,
        1u64 << 11u64 == 0x800,
        1u64 << 12u64 == 0x1000,
{
    lemma_small_words(0, 0, 0, 0, 0, 0, 0, 0, 0, 0);
}

/// Exclusive or with the same word twice gives the word back.
pub proof fn lemma_xor_cancel(p: u32, q: u32, m: u16, n: u16)
    ensures
        (p ^ q) ^ q == p,
        (m ^ n) ^ n == m,
{
    lemma_small_words(0, 0, 0, 0, 0, 0, p, q, m, n);
}

} // verus!

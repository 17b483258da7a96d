//! Bit extraction helpers for protocol parsing.
//!
//! These functions read bit fields within P25 protocol data with MSB-first
//! ordering, which matches P25's over-the-air bit ordering: bit index 0 is
//! the most significant bit of byte 0.

use vstd::prelude::*;
use vstd::arithmetic::power2::{pow2, lemma2_to64, lemma_pow2_adds, lemma_pow2_pos, lemma_pow2_strictly_increases};

verus! {

/// Bit `k` of `data` (0 or 1), bit 0 being the most significant bit of
/// byte 0.
pub open spec fn data_bit(data: Seq<u8>, k: nat) -> nat {
    ((data[(k / 8) as int] as nat) / pow2((7 - k % 8) as nat)) % 2
}

/// The bits `start` up to `end` of `data` read as a number, the first
/// most significant.
pub open spec fn bits_value(data: Seq<u8>, start: nat, end: nat) -> nat
    decreases end,
{
    if end <= start {
        0
    } else {
        bits_value(data, start, (end - 1) as nat) * 2 + data_bit(data, (end - 1) as nat)
    }
}

/// A field of `end - start` bits is below `2^(end - start)`.
pub proof fn lemma_bits_value_bound(data: Seq<u8>, start: nat, end: nat)
    requires
        start <= end,
    ensures
        bits_value(data, start, end) < pow2((end - start) as nat),
    decreases end,
{
    lemma2_to64();
    if end > start {
        lemma_bits_value_bound(data, start, (end - 1) as nat);
        lemma_pow2_adds((end - 1 - start) as nat, 1);
    }
}

/// The bits `start` up to `end` of `data`, most significant first.
fn load_bits(data: &[u8], start: usize, end: usize) -> (r: u64)
    requires
        start <= end,
        end - start <= 64,
        end <= data@.len() * 8,
    ensures
        r == bits_value(data@, start as nat, end as nat),
{
    let mut value: u64 = 0;
    let mut k = start;
    proof {
        lemma2_to64();
        vstd::arithmetic::power2::lemma2_to64_rest();
    }
    while k < end
        invariant
            start <= k <= end,
            end - start <= 64,
            end <= data@.len() * 8,
            value == bits_value(data@, start as nat, k as nat),
            value < pow2((k - start) as nat),
            pow2(64) == 0x1_0000_0000_0000_0000,
        decreases end - k,
    {
        let byte = data[k / 8];
        let shift = (7 - k % 8) as u8;
        proof {
            vstd::bits::lemma_u8_shr_is_div(byte, shift);
            lemma_bits_value_bound(data@, start as nat, (k + 1) as nat);
            if k + 1 - start < 64 {
                lemma_pow2_strictly_increases((k + 1 - start) as nat, 64);
            }
            lemma_pow2_pos(shift as nat);
        }
        let bit = (byte >> shift) % 2;
        value = value * 2 + bit as u64;
        k = k + 1;
    }
    value
}

/// Extract a `u8` value from the bits `start..end`.
///
/// Bit index 0 is the MSB of byte 0.
pub fn extract_u8(data: &[u8], start: usize, end: usize) -> (r: u8)
    requires
        start < end <= data@.len() * 8,
        end - start <= 8,
    ensures
        r == bits_value(data@, start as nat, end as nat),
{
    proof {
        lemma_bits_value_bound(data@, start as nat, end as nat);
        lemma2_to64();
        if end - start < 8 {
            lemma_pow2_strictly_increases((end - start) as nat, 8);
        }
    }
    load_bits(data, start, end) as u8
}

/// Extract a `u16` value from the bits `start..end`.
///
/// Bit index 0 is the MSB of byte 0.
pub fn extract_u16(data: &[u8], start: usize, end: usize) -> (r: u16)
    requires
        start < end <= data@.len() * 8,
        end - start <= 16,
    ensures
        r == bits_value(data@, start as nat, end as nat),
{
    proof {
        lemma_bits_value_bound(data@, start as nat, end as nat);
        lemma2_to64();
        if end - start < 16 {
            lemma_pow2_strictly_increases((end - start) as nat, 16);
        }
    }
    load_bits(data, start, end) as u16
}

/// Extract a `u32` value from the bits `start..end` (up to 32 bits).
///
/// Bit index 0 is the MSB of byte 0.
pub fn extract_u32(data: &[u8], start: usize, end: usize) -> (r: u32)
    requires
        start < end <= data@.len() * 8,
        end - start <= 32,
    ensures
        r == bits_value(data@, start as nat, end as nat),
{
    proof {
        lemma_bits_value_bound(data@, start as nat, end as nat);
        lemma2_to64();
        if end - start < 32 {
            lemma_pow2_strictly_increases((end - start) as nat, 32);
        }
    }
    load_bits(data, start, end) as u32
}

/// Extract a `u64` value from the bits `start..end` (up to 64 bits).
///
/// Bit index 0 is the MSB of byte 0.
pub fn extract_u64(data: &[u8], start: usize, end: usize) -> (r: u64)
    requires
        start < end <= data@.len() * 8,
        end - start <= 64,
    ensures
        r == bits_value(data@, start as nat, end as nat),
{
    load_bits(data, start, end)
}

} // verus!

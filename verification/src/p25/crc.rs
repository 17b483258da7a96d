//! CRC-16 validation for P25 Trunking Signaling Blocks.
//!
//! P25 TSBKs use CRC-16/CCITT with polynomial x^16 + x^12 + x^5 + 1 (0x1021),
//! initial value 0, and final XOR of 0xFFFF. The CRC is computed MSB-first
//! over the first 80 bits (10 bytes) and compared against bytes 10-11.
//!
//! Reference: TIA-102.AABF-A Section 7.1

use vstd::prelude::*;
use vstd::string::StringExecFns;
use crate::p25::text::{lower_hex_digits, push_lower_hex};

verus! {

/// CRC-16 polynomial for P25 TSBK validation (implicit x^16 term).
const CRC16_POLY: u32 = 0x1021;

/// Final XOR value applied after CRC computation.
const CRC16_FINAL_XOR: u32 = 0xFFFF;

/// One step of the CRC shift register: shift in `bit` and reduce by the
/// generator polynomial when the x^16 term appears.
pub open spec fn crc_shift(crc: u32, bit: u32) -> u32 {
    let c = ((crc << 1u32) | bit) & 0x1_FFFF;
    if c & 0x1_0000 != 0 {
        (c & 0xFFFF) ^ 0x1021
    } else {
        c
    }
}

/// Bit `j` of `byte`, counting from the most significant bit (j = 0).
pub open spec fn msb_bit(byte: u8, j: u32) -> u32 {
    ((byte >> (7 - j) as u8) & 1) as u32
}

/// The register after shifting in the first `n` bits (MSB first) of `byte`.
pub open spec fn crc_shift_bits(crc: u32, byte: u8, n: nat) -> u32
    decreases n,
{
    if n == 0 {
        crc
    } else {
        crc_shift(crc_shift_bits(crc, byte, (n - 1) as nat), msb_bit(byte, (n - 1) as u32))
    }
}

/// The CRC register after shifting in every bit of `data`, MSB first.
pub open spec fn crc_register(data: Seq<u8>) -> u32
    decreases data.len(),
{
    if data.len() == 0 {
        0
    } else {
        crc_shift_bits(crc_register(data.drop_last()), data.last(), 8)
    }
}

/// The P25 CRC-16 of `data`: the shift register value with the final XOR.
pub open spec fn spec_crc16(data: Seq<u8>) -> u16 {
    ((crc_register(data) ^ 0xFFFF) & 0xFFFF) as u16
}

proof fn lemma_crc_shift_bound(crc: u32, bit: u32)
    requires
        crc < 0x1_0000,
        bit < 2,
    ensures
        crc_shift(crc, bit) < 0x1_0000,
{
    assert(crc < 0x1_0000 && bit < 2 ==> (if ((crc << 1u32) | bit) & 0x1_FFFF & 0x1_0000 != 0 {
        (((crc << 1u32) | bit) & 0x1_FFFF & 0xFFFF) ^ 0x1021
    } else {
        ((crc << 1u32) | bit) & 0x1_FFFF
    }) < 0x1_0000) by (bit_vector);
}

proof fn lemma_crc_register_bound(data: Seq<u8>)
    ensures
        crc_register(data) < 0x1_0000,
    decreases data.len(),
{
    if data.len() > 0 {
        lemma_crc_register_bound(data.drop_last());
        lemma_crc_bits_bound(crc_register(data.drop_last()), data.last(), 8);
    }
}

proof fn lemma_crc_bits_bound(crc: u32, byte: u8, n: nat)
    requires
        crc < 0x1_0000,
    ensures
        crc_shift_bits(crc, byte, n) < 0x1_0000,
    decreases n,
{
    if n > 0 {
        lemma_crc_bits_bound(crc, byte, (n - 1) as nat);
        let b = byte;
        let j = (n - 1) as u32;
        crate::p25::bitwise::lemma_bit_u8(b, (7 - j) as u8);
        lemma_crc_shift_bound(crc_shift_bits(crc, byte, (n - 1) as nat), msb_bit(byte, j));
    }
}

/// Compute the CRC-16 over a byte buffer, processing bits MSB-first.
///
/// To validate a TSBK, compute `crc16(data[..10])` and compare with
/// the transmitted CRC in bytes 10-11.
pub fn crc16(data: &[u8]) -> (r: u16)
    ensures
        r == spec_crc16(data@),
{
    let mut crc: u32 = 0;
    let mut i: usize = 0;
    while i < data.len()
        invariant
            i <= data.len(),
            crc == crc_register(data@.subrange(0, i as int)),
            crc < 0x1_0000,
        decreases data.len() - i,
    {
        let byte = data[i];
        let ghost start = crc;
        let mut j: u32 = 0;
        while j < 8
            invariant
                j <= 8,
                crc == crc_shift_bits(start, byte, j as nat),
                crc < 0x1_0000,
            decreases 8 - j,
        {
            let bit = ((byte >> (7 - j) as u8) & 1) as u32;
            proof {
                crate::p25::bitwise::lemma_bit_u8(byte, (7 - j) as u8);
                lemma_crc_shift_bound(crc, bit);
            }
            crc = ((crc << 1) | bit) & 0x1_FFFF;
            if crc & 0x1_0000 != 0 {
                crc = (crc & 0xFFFF) ^ CRC16_POLY;
            }
            j = j + 1;
        }
        proof {
            let prefix = data@.subrange(0, i as int + 1);
            assert(prefix.drop_last() =~= data@.subrange(0, i as int));
            assert(prefix.last() == byte);
        }
        i = i + 1;
    }
    proof {
        assert(data@.subrange(0, data@.len() as int) =~= data@);
    }
    crc = crc ^ CRC16_FINAL_XOR;
    (crc & 0xFFFF) as u16
}

/// CRC validation error.
#[derive(Debug, Clone, Copy, PartialEq, Eq, Structural)]
pub enum CrcError {
    /// The computed CRC does not match the transmitted CRC.
    Mismatch {
        /// CRC value from the TSBK (bytes 10-11).
        expected: u16,
        /// CRC computed over the first 10 bytes.
        computed: u16,
    },
}

/// The 16-bit CRC transmitted in bytes 10-11 of a TSBK (big-endian).
pub open spec fn transmitted_crc(data: Seq<u8>) -> u16 {
    (data[10] as u16 * 256 + data[11] as u16) as u16
}

/// Validate that a 12-byte TSBK passes its CRC-16 check.
///
/// Computes the CRC-16 over the first 10 bytes (header + payload) and
/// compares it against the transmitted CRC in bytes 10-11.
pub fn validate_tsbk_crc(data: &[u8; 12]) -> (r: Result<(), CrcError>)
    ensures
        ({
            let computed = spec_crc16(data@.subrange(0, 10));
            let transmitted = transmitted_crc(data@);
            match r {
                Ok(()) => computed == transmitted,
                Err(CrcError::Mismatch { expected, computed: c }) => computed != transmitted
                    && expected == transmitted && c == computed,
            }
        }),
{
    let hi = data[10];
    let lo = data[11];
    assert(((hi as u16) << 8u16) | lo as u16 == (hi as u16 * 256 + lo as u16) as u16) by (bit_vector);
    let transmitted = ((data[10] as u16) << 8) | data[11] as u16;
    let computed = crc16(&data[0..10]);
    if computed != transmitted {
        return Err(CrcError::Mismatch { expected: transmitted, computed });
    }
    Ok(())
}

/// The message of a CRC error: both values as `0x` and four lower-case
/// hexadecimal digits.
pub open spec fn crc_error_text(e: CrcError) -> Seq<char> {
    match e {
        CrcError::Mismatch { expected, computed } => "CRC-16 mismatch: transmitted 0x"@ + lower_hex_digits(
            expected as nat,
            4,
        ) + ", computed 0x"@ + lower_hex_digits(computed as nat, 4),
    }
}

impl CrcError {
    /// The error's message.
    pub fn to_string(&self) -> (r: String)
        ensures
            r@ == crc_error_text(*self),
    {
        match self {
            CrcError::Mismatch { expected, computed } => {
                let mut s = String::from_str("CRC-16 mismatch: transmitted 0x");
                push_lower_hex(&mut s, *expected as u64, 4);
                s.append(", computed 0x");
                push_lower_hex(&mut s, *computed as u64, 4);
                s
            },
        }
    }
}

/// The byte-wise exclusive or of two messages of one length.
pub open spec fn xor_bytes(a: Seq<u8>, b: Seq<u8>) -> Seq<u8> {
    Seq::new(a.len(), |i: int| a[i] ^ b[i])
}

/// A shift register step is linear in the register and the bit shifted in,
/// and a clear register stays clear when a zero bit comes in.
proof fn lemma_shift_linear(a: u32, b: u32, x: u8, y: u8, j: u32)
    by (bit_vector)
    requires
        a < 0x1_0000,
        b < 0x1_0000,
        j < 8,
    ensures
        crc_shift(a ^ b, msb_bit(x ^ y, j)) == crc_shift(a, msb_bit(x, j)) ^ crc_shift(b, msb_bit(y, j)),
        crc_shift(0u32, msb_bit(0u8, j)) == 0,
        0u32 ^ 0u32 == 0,
        ((a ^ 0x1021u32) ^ 0xFFFF) & 0xFFFF == (((a ^ 0xFFFF) & 0xFFFF) ^ 0x1021u32),
        (((a ^ 0xFFFF) & 0xFFFF) as u16) ^ 0x1021u16 == ((((a ^ 0xFFFF) & 0xFFFF) ^ 0x1021u32) as u16),
        ((0x1021u32 ^ 0xFFFF) & 0xFFFF) as u16 == 0xEFDEu16,
        crc_shift(crc_shift(crc_shift(crc_shift(crc_shift(crc_shift(crc_shift(crc_shift(crc_shift(crc_shift(crc_shift(crc_shift(crc_shift(crc_shift(crc_shift(crc_shift(crc_shift(crc_shift(crc_shift(crc_shift(crc_shift(crc_shift(crc_shift(crc_shift(0u32, msb_bit(1u8, 0u32)), msb_bit(1u8, 1u32)), msb_bit(1u8, 2u32)), msb_bit(1u8, 3u32)), msb_bit(1u8, 4u32)), msb_bit(1u8, 5u32)), msb_bit(1u8, 6u32)), msb_bit(1u8, 7u32)), msb_bit(0u8, 0u32)), msb_bit(0u8, 1u32)), msb_bit(0u8, 2u32)), msb_bit(0u8, 3u32)), msb_bit(0u8, 4u32)), msb_bit(0u8, 5u32)), msb_bit(0u8, 6u32)), msb_bit(0u8, 7u32)), msb_bit(0u8, 0u32)), msb_bit(0u8, 1u32)), msb_bit(0u8, 2u32)), msb_bit(0u8, 3u32)), msb_bit(0u8, 4u32)), msb_bit(0u8, 5u32)), msb_bit(0u8, 6u32)), msb_bit(0u8, 7u32)) == 0x1021,
{
}

/// Shifting in the bits of a byte is linear in the register and the byte.
proof fn lemma_shift_bits_linear(a: u32, b: u32, x: u8, y: u8, n: nat)
    requires
        a < 0x1_0000,
        b < 0x1_0000,
        n <= 8,
    ensures
        crc_shift_bits(a ^ b, x ^ y, n) == crc_shift_bits(a, x, n) ^ crc_shift_bits(b, y, n),
        crc_shift_bits(0u32, 0u8, n) == 0,
    decreases n,
{
    if n > 0 {
        let m = (n - 1) as nat;
        lemma_shift_bits_linear(a, b, x, y, m);
        lemma_crc_bits_bound(a, x, m);
        lemma_crc_bits_bound(b, y, m);
        lemma_shift_linear(crc_shift_bits(a, x, m), crc_shift_bits(b, y, m), x, y, m as u32);
        lemma_shift_linear(0, 0, 0, 0, m as u32);
    }
}

/// The CRC register is linear: the register of the byte-wise exclusive or
/// of two messages of one length is the exclusive or of their registers.
/// (The CRC itself adds the constant final XOR to the register.)
pub proof fn lemma_crc_linear(a: Seq<u8>, b: Seq<u8>)
    requires
        a.len() == b.len(),
    ensures
        crc_register(xor_bytes(a, b)) == crc_register(a) ^ crc_register(b),
    decreases a.len(),
{
    if a.len() > 0 {
        let a0 = a.drop_last();
        let b0 = b.drop_last();
        lemma_crc_linear(a0, b0);
        let x = xor_bytes(a, b);
        assert(x.drop_last() =~= xor_bytes(a0, b0));
        lemma_crc_register_bound(a0);
        lemma_crc_register_bound(b0);
        lemma_shift_bits_linear(crc_register(a0), crc_register(b0), a.last(), b.last(), 8);
        assert(x.last() == a.last() ^ b.last());
        assert(crc_register(x) == crc_shift_bits(crc_register(x.drop_last()), x.last(), 8));
    } else {
        lemma_shift_linear(0, 0, 0, 0, 0);
        assert(xor_bytes(a, b).len() == 0);
    }
}

/// Leading zero bytes do not change the CRC: the register stays clear
/// while they are shifted in.
pub proof fn lemma_crc_zero_prefix(data: Seq<u8>)
    ensures
        crc_register(seq![0u8] + data) == crc_register(data),
        spec_crc16(seq![0u8] + data) == spec_crc16(data),
    decreases data.len(),
{
    let z = seq![0u8];
    let w = z + data;
    if data.len() == 0 {
        assert(w =~= z);
        assert(z.drop_last() =~= Seq::<u8>::empty());
        lemma_shift_bits_linear(0, 0, 0, 0, 8);
        assert(crc_register(z) == crc_shift_bits(crc_register(Seq::<u8>::empty()), 0u8, 8));
    } else {
        let d0 = data.drop_last();
        lemma_crc_zero_prefix(d0);
        assert(w.drop_last() =~= z + d0);
        assert(w.last() == data.last());
        assert(crc_register(w) == crc_shift_bits(crc_register(w.drop_last()), w.last(), 8));
    }
}

/// `n` zero bytes.
pub open spec fn zero_bytes(n: nat) -> Seq<u8> {
    Seq::new(n, |i: int| 0u8)
}

/// Any number of leading zero bytes leave the CRC register unchanged.
proof fn lemma_crc_zero_bytes(n: nat, data: Seq<u8>)
    ensures
        crc_register(zero_bytes(n) + data) == crc_register(data),
    decreases n,
{
    if n > 0 {
        lemma_crc_zero_bytes((n - 1) as nat, data);
        lemma_crc_zero_prefix(zero_bytes((n - 1) as nat) + data);
        assert(seq![0u8] + (zero_bytes((n - 1) as nat) + data) =~= zero_bytes(n) + data);
    }
}

/// The generator of the code is x^16 + x^12 + x^5 + 1: for every message,
/// shifting in a one bit followed by sixteen zero bits instead of seventeen
/// zero bits changes the register, and the CRC, by exactly 0x1021 (the
/// generator without its x^16 term). In particular the CRC of the bytes
/// 01 00 00 is 0x1021 ^ 0xFFFF = 0xEFDE.
pub proof fn lemma_crc_generator(m: Seq<u8>)
    ensures
        crc_register(m + seq![1u8, 0u8, 0u8]) == crc_register(m + seq![0u8, 0u8, 0u8]) ^ 0x1021u32,
        spec_crc16(m + seq![1u8, 0u8, 0u8]) == spec_crc16(m + seq![0u8, 0u8, 0u8]) ^ 0x1021u16,
        spec_crc16(seq![1u8, 0u8, 0u8]) == 0xEFDEu16,
{
    let one = seq![1u8, 0u8, 0u8];
    let a = m + seq![0u8, 0u8, 0u8];
    let b = zero_bytes(m.len()) + one;
    assert(xor_bytes(a, b) =~= m + one) by {
        assert forall|i: int| 0 <= i < a.len() implies #[trigger] xor_bytes(a, b)[i] == (m + one)[i] by {
            crate::p25::bitwise::lemma_xor_u8(a[i], 0, 0);
            crate::p25::bitwise::lemma_xor_u8(0, 0, 0);
            crate::p25::bitwise::lemma_xor_u8(0, 1, 0);
            crate::p25::bitwise::lemma_xor_u8(1, 0, 0);
        }
    }
    lemma_crc_linear(a, b);
    lemma_crc_zero_bytes(m.len(), one);
    lemma_shift_linear(0, 0, 0, 0, 0);
    assert(one.drop_last() =~= seq![1u8, 0u8]);
    assert(seq![1u8, 0u8].drop_last() =~= seq![1u8]);
    assert(seq![1u8].drop_last() =~= Seq::<u8>::empty());
    reveal_with_fuel(crc_shift_bits, 9);
    let r1 = crc_shift_bits(0u32, 1u8, 8);
    let r2 = crc_shift_bits(r1, 0u8, 8);
    let r3 = crc_shift_bits(r2, 0u8, 8);
    assert(crc_register(Seq::<u8>::empty()) == 0);
    assert(crc_register(seq![1u8]) == r1) by {
        assert(seq![1u8].last() == 1u8);
        assert(seq![1u8].drop_last() =~= Seq::<u8>::empty());
    }
    assert(crc_register(seq![1u8, 0u8]) == r2) by {
        assert(seq![1u8, 0u8].last() == 0u8);
    }
    assert(crc_register(one) == r3) by {
        assert(one.last() == 0u8);
    }
    assert(r3 == 0x1021u32);
    lemma_crc_register_bound(a);
    let r = crc_register(a);
    lemma_shift_linear(r, 0, 0, 0, 0);
}

/// The transmitted CRC is big-endian: a TSBK whose byte 10 is the high
/// byte and byte 11 the low byte of the CRC of bytes 0..10 carries that
/// CRC, so it validates; and a TSBK validates only if it carries it so.
pub proof fn lemma_transmitted_crc(d: Seq<u8>)
    requires
        d.len() == 12,
    ensures
        (d[10] == spec_crc16(d.subrange(0, 10)) / 256 && d[11] == spec_crc16(d.subrange(0, 10)) % 256)
            <==> transmitted_crc(d) == spec_crc16(d.subrange(0, 10)),
{
    let c = spec_crc16(d.subrange(0, 10));
    assert((d[10] as u16 * 256 + d[11] as u16) < 0x1_0000);
    assert(transmitted_crc(d) as int == d[10] as int * 256 + d[11] as int);
    if transmitted_crc(d) == c {
        vstd::arithmetic::div_mod::lemma_fundamental_div_mod_converse(c as int, 256, d[10] as int, d[11] as int);
    }
}

} // verus!

//! Shortened (16, 8, 5) cyclic code for P25 low-speed data.
//!
//! This code is shortened from the base (17, 9, 5) cyclic code with generator
//! polynomial g(x) = x^8 + x^5 + x^4 + x^3 + 1. It can detect up to 4
//! errors and correct up to 2 errors.
//!
//! Used for low-speed data fragments in LDU1/LDU2 voice superframes.
//!
//! The decoding algorithm uses cyclic rotation with syndrome lookup, based on
//! Lin and Costello's *Error Control Coding* (1983) and Roman's *Coding and
//! Information Theory* (1992).
//!
//! The key insight that this is shortened from a (17, 9, 5) code comes from
//! Simon, "Standard APCO25 Physical Layer of the Radio Transmission Chain",
//! 2014.

use vstd::prelude::*;
use super::golay::{
    count, count_ones, dot2, gf2_matrix_multiply, gf2_product, lemma_count_ones, lemma_dot2_parity, lemma_gf2_product_bound,
    lemma_parity_xor, lemma_product_bit, lemma_product_zero, parity, weight,
};

verus! {

/// Transpose of the generator matrix (parity submatrix): each row computes one parity bit from the 9 data bits.
pub open spec fn generator() -> Seq<u32> {
    seq![
        0b100111100u32,
        0b010011110u32,
        0b001001111u32,
        0b100011011u32,
        0b110110001u32,
        0b111100100u32,
        0b011110010u32,
        0b001111001u32,
    ]
}

/// Transpose of the parity-check matrix, giving the 8-bit syndrome s = word * H^T.
pub open spec fn parity_check() -> Seq<u32> {
    seq![
        0b10011110010000000u32,
        0b01001111001000000u32,
        0b00100111100100000u32,
        0b10001101100010000u32,
        0b11011000100001000u32,
        0b11110010000000100u32,
        0b01111001000000010u32,
        0b00111100100000001u32,
    ]
}

fn generator_rows() -> (r: [u32; 8])
    ensures
        r@ == generator(),
{
    let r: [u32; 8] = [
        0b100111100,
        0b010011110,
        0b001001111,
        0b100011011,
        0b110110001,
        0b111100100,
        0b011110010,
        0b001111001,
    ];
    assert(r@ =~= generator());
    r
}

fn parity_check_rows() -> (r: [u32; 8])
    ensures
        r@ == parity_check(),
{
    let r: [u32; 8] = [
        0b10011110010000000,
        0b01001111001000000,
        0b00100111100100000,
        0b10001101100010000,
        0b11011000100001000,
        0b11110010000000100,
        0b01111001000000010,
        0b00111100100000001,
    ];
    assert(r@ =~= parity_check());
    r
}

/// Maps each 8-bit syndrome to a 17-bit error pattern that includes the
/// LSB (one error at bit 0, or two errors with one at bit 0); zero marks
/// a syndrome with no such pattern.
pub open spec fn patterns(s: u8) -> u32 {
    match s {
        0x01 => 0b00000000000000001,  // bit 0
        0x03 => 0b00000000000000011,  // bits 0,1
        0x05 => 0b00000000000000101,  // bits 0,2
        0x09 => 0b00000000000001001,  // bits 0,3
        0x11 => 0b00000000000010001,  // bits 0,4
        0x21 => 0b00000000000100001,  // bits 0,5
        0x26 => 0b00100000000000001,  // bits 0,14
        0x38 => 0b00000000100000001,  // bits 0,8
        0x41 => 0b00000000001000001,  // bits 0,6
        0x4F => 0b01000000000000001,  // bits 0,15
        0x73 => 0b00000001000000001,  // bits 0,9
        0x81 => 0b00000000010000001,  // bits 0,7
        0x8E => 0b00010000000000001,  // bits 0,13
        0x9D => 0b10000000000000001,  // bits 0,16
        0xDA => 0b00001000000000001,  // bits 0,12
        0xE5 => 0b00000010000000001,  // bits 0,10
        0xF0 => 0b00000100000000001,  // bits 0,11
        _ => 0,
    }
}

/// Look up the error pattern for an 8-bit syndrome.
fn pattern(s: u8) -> (r: u32)
    ensures
        r == patterns(s),
{
    match s {
        0x01 => 0b00000000000000001,  // bit 0
        0x03 => 0b00000000000000011,  // bits 0,1
        0x05 => 0b00000000000000101,  // bits 0,2
        0x09 => 0b00000000000001001,  // bits 0,3
        0x11 => 0b00000000000010001,  // bits 0,4
        0x21 => 0b00000000000100001,  // bits 0,5
        0x26 => 0b00100000000000001,  // bits 0,14
        0x38 => 0b00000000100000001,  // bits 0,8
        0x41 => 0b00000000001000001,  // bits 0,6
        0x4F => 0b01000000000000001,  // bits 0,15
        0x73 => 0b00000001000000001,  // bits 0,9
        0x81 => 0b00000000010000001,  // bits 0,7
        0x8E => 0b00010000000000001,  // bits 0,13
        0x9D => 0b10000000000000001,  // bits 0,16
        0xDA => 0b00001000000000001,  // bits 0,12
        0xE5 => 0b00000010000000001,  // bits 0,10
        0xF0 => 0b00000100000000001,  // bits 0,11
        _ => 0,
    }
}

/// Cyclically rotate a 17-bit word right by 1 position.
pub open spec fn spec_rotate_17(word: u32) -> u32 {
    (word >> 1u32) | ((word & 1) << 16u32)
}

/// The base codeword `[data | data * G^T]` of 9 data bits.
pub open spec fn spec_encode_base(data: u16) -> u32 {
    ((data as u32) << 8u32) | (gf2_product(data as u32, generator()) as u32)
}

/// The decoder state (current word, error count) after `k` of the 17
/// rotation steps: at each step a non-zero syndrome either names an error
/// pattern through the LSB, which is corrected, or marks the word
/// uncorrectable for now; then the word is rotated.
pub open spec fn decode_state(word: u32, k: nat) -> (u32, Option<usize>)
    decreases k,
{
    if k == 0 {
        (word, Some(0usize))
    } else {
        let (current, count) = decode_state(word, (k - 1) as nat);
        let syndrome = gf2_product(current, parity_check()) as u8;
        if syndrome == 0 {
            (spec_rotate_17(current), count)
        } else if patterns(syndrome) == 0 {
            (spec_rotate_17(current), None)
        } else {
            (spec_rotate_17(current ^ patterns(syndrome)), Some(weight(patterns(syndrome)) as usize))
        }
    }
}

/// Result of decoding a 17-bit base word: the data bits after the full
/// cycle of rotations and the error count, if correctable.
pub open spec fn spec_decode_base(word: u32) -> Option<(u16, usize)> {
    let (current, count) = decode_state(word, 17);
    match count {
        Some(errors) => Some(((current >> 8u32) as u16, errors)),
        None => None,
    }
}

/// Encode the given 8 data bits into a 16-bit codeword.
///
/// Returns `[data (8 bits) | parity (8 bits)]`.
pub fn encode(data: u8) -> (r: u16)
    ensures
        r as u32 == spec_encode_base(data as u16),
{
    let d16 = data as u16;
    proof {
        crate::p25::bitwise::lemma_mask_u8(data);
    }
    let base = encode_base(d16);
    // Drop the MSB (bit 16) which is always 0 for shortened code.
    proof {
        lemma_gf2_product_bound(data as u32, generator());
        let p = gf2_product(data as u32, generator());
        assert(((((d16 as u32) << 8u32) | (p as u32)) as u16) as u32 == (((d16 as u32) << 8u32) | (p as u32))) by (bit_vector)
            requires
                (p as u64) < (1u64 << 8u64),
                d16 >> 9u16 == 0,
                d16 < 256,
        ;
    }
    base as u16
}

/// Try to decode the given 16-bit word to the nearest codeword, correcting
/// up to 2 bit errors.
///
/// Returns `Some((data, error_count))` on success, where `data` is the 8
/// recovered data bits and `error_count` is 0, 1, or 2. Returns `None` if
/// the error pattern is uncorrectable.
pub fn decode(word: u16) -> (r: Option<(u8, usize)>)
    ensures
        match spec_decode_base(word as u32) {
            None => r is None,
            Some((data, errors)) => if data >> 8u16 == 0 {
                r == Some((data as u8, errors))
            } else {
                r is None
            },
        },
{
    // Expand to 17-bit base code word (MSB = 0 for shortened code).
    let base_word = word as u32;
    proof {
        crate::p25::bitwise::lemma_mask_u16(word);
    }
    match decode_base(base_word) {
        Some((data, errors)) => {
            if data >> 8 == 0 {
                Some((data as u8, errors))
            } else {
                None
            }
        },
        None => None,
    }
}

/// Compute the GF(2) dot product of a binary vector with each row of a
/// matrix, producing a result value.
fn gf2_vector_matrix(word: u32, matrix: &[u32]) -> (r: u32)
    requires
        matrix@.len() <= 16,
    ensures
        r == gf2_product(word, matrix@) as u32,
{
    gf2_matrix_multiply(word, matrix) as u32
}

/// Systematic encoding: returns `[data | data * G^T]` as a 17-bit word.
pub fn encode_base(data: u16) -> (r: u32)
    requires
        data >> 9u16 == 0,
    ensures
        r == spec_encode_base(data),
{
    let rows = generator_rows();
    let parity = gf2_vector_matrix(data as u32, rows.as_slice());
    ((data as u32) << 8) | parity
}

/// Decode a 17-bit base code word using cyclic rotation with syndrome
/// lookup.
pub fn decode_base(word: u32) -> (r: Option<(u16, usize)>)
    requires
        word >> 17u32 == 0,
    ensures
        r == spec_decode_base(word),
{
    let checks = parity_check_rows();
    let mut current = word;
    let mut error_count: Option<usize> = Some(0);

    // Rotate through all 17 positions. At each step, compute the syndrome
    // and check if the error pattern is correctable with the LSB set.
    let mut k: usize = 0;
    while k < 17
        invariant
            k <= 17,
            checks@ == parity_check(),
            (current, error_count) == decode_state(word, k as nat),
        decreases 17 - k,
    {
        let syndrome = gf2_vector_matrix(current, checks.as_slice()) as u8;

        if syndrome == 0 {
            current = rotate_17(current);
        } else {
            let p = pattern(syndrome);
            if p == 0 {
                // Uncorrectable syndrome at this rotation
                error_count = None;
                current = rotate_17(current);
            } else {
                error_count = Some(count_ones(p) as usize);
                current = rotate_17(current ^ p);
            }
        }
        k += 1;
    }

    // After 17 rotations, data bits are back in their original position.
    match error_count {
        Some(errors) => Some(((current >> 8) as u16, errors)),
        None => None,
    }
}

/// Cyclically rotate a 17-bit word right by 1 position.
pub fn rotate_17(word: u32) -> (r: u32)
    ensures
        r == spec_rotate_17(word),
{
    let lsb = word & 1;
    (word >> 1) | (lsb << 16)
}

/// The word `w` rotated right by one position `n` times.
pub open spec fn rotations(w: u32, n: u32) -> u32
    decreases n,
{
    if n == 0 {
        w
    } else {
        spec_rotate_17(rotations(w, (n - 1) as u32))
    }
}

/// Whether `w` is orthogonal to every row of the parity-check matrix.
pub open spec fn checks_clear(w: u32) -> bool {
    &&& parity(w & 0b10011110010000000u32, 32) == 0
    &&& parity(w & 0b01001111001000000u32, 32) == 0
    &&& parity(w & 0b00100111100100000u32, 32) == 0
    &&& parity(w & 0b10001101100010000u32, 32) == 0
    &&& parity(w & 0b11011000100001000u32, 32) == 0
    &&& parity(w & 0b11110010000000100u32, 32) == 0
    &&& parity(w & 0b01111001000000010u32, 32) == 0
    &&& parity(w & 0b00111100100000001u32, 32) == 0
}

/// Every rotation `w1`, `w2`, ... of a codeword `w0 = [d | p]`, its parity
/// bits `p` computed from the generator rows, is orthogonal to the
/// parity-check rows (the code is cyclic); the 17th rotation is the codeword
/// again, with the data in its upper 9 bits.
proof fn lemma_codeword_checks(d: u32, p: u32, w0: u32, w1: u32, w2: u32, w3: u32, w4: u32, w5: u32, w6: u32, w7: u32, w8: u32, w9: u32, w10: u32, w11: u32, w12: u32, w13: u32, w14: u32, w15: u32, w16: u32, w17: u32)
    by (bit_vector)
    requires
        d < 0x200,
        p < 0x100,
        parity(d & 0b100111100u32, 32) == (p >> 7u32) & 1u32,
        parity(d & 0b010011110u32, 32) == (p >> 6u32) & 1u32,
        parity(d & 0b001001111u32, 32) == (p >> 5u32) & 1u32,
        parity(d & 0b100011011u32, 32) == (p >> 4u32) & 1u32,
        parity(d & 0b110110001u32, 32) == (p >> 3u32) & 1u32,
        parity(d & 0b111100100u32, 32) == (p >> 2u32) & 1u32,
        parity(d & 0b011110010u32, 32) == (p >> 1u32) & 1u32,
        parity(d & 0b001111001u32, 32) == (p >> 0u32) & 1u32,
        w0 == (d << 8u32) | p,
        w1 == spec_rotate_17(w0),
        w2 == spec_rotate_17(w1),
        w3 == spec_rotate_17(w2),
        w4 == spec_rotate_17(w3),
        w5 == spec_rotate_17(w4),
        w6 == spec_rotate_17(w5),
        w7 == spec_rotate_17(w6),
        w8 == spec_rotate_17(w7),
        w9 == spec_rotate_17(w8),
        w10 == spec_rotate_17(w9),
        w11 == spec_rotate_17(w10),
        w12 == spec_rotate_17(w11),
        w13 == spec_rotate_17(w12),
        w14 == spec_rotate_17(w13),
        w15 == spec_rotate_17(w14),
        w16 == spec_rotate_17(w15),
        w17 == spec_rotate_17(w16),
    ensures
        checks_clear(w0),
        checks_clear(w1),
        checks_clear(w2),
        checks_clear(w3),
        checks_clear(w4),
        checks_clear(w5),
        checks_clear(w6),
        checks_clear(w7),
        checks_clear(w8),
        checks_clear(w9),
        checks_clear(w10),
        checks_clear(w11),
        checks_clear(w12),
        checks_clear(w13),
        checks_clear(w14),
        checks_clear(w15),
        checks_clear(w16),
        w17 == w0,
        w0 >> 8u32 == d,
        w0 >> 17u32 == 0,
{
}

/// The syndrome of a word orthogonal to every check row is zero.
proof fn lemma_clear_syndrome(w: u32)
    requires
        checks_clear(w),
    ensures
        gf2_product(w, parity_check()) == 0,
{
    let checks = parity_check();
    assert forall|i: int| 0 <= i < 8 implies dot2(w, #[trigger] checks[i]) == 0 by {
        lemma_dot2_parity(w, checks[i]);
    }
    lemma_product_zero(w, checks);
}

/// Every rotation of the base codeword of 9 data bits is orthogonal to the
/// parity-check rows; seventeen rotations give the codeword back, with the
/// data in its upper bits.
proof fn lemma_codeword_rotations(data: u16)
    requires
        data < 0x200,
    ensures
        forall|j: u32| j < 17 ==> #[trigger] checks_clear(rotations(spec_encode_base(data), j)),
        rotations(spec_encode_base(data), 17) == spec_encode_base(data),
        spec_encode_base(data) >> 8u32 == data as u32,
        spec_encode_base(data) >> 17u32 == 0,
{
    let d = data as u32;
    let rows = generator();
    let p16 = gf2_product(d, rows);
    let p = p16 as u32;
    lemma_gf2_product_bound(d, rows);
    crate::p25::bitwise::lemma_pow2_shifts();
    assert forall|j: int| 0 <= j < 8 implies #[trigger] parity(d & rows[j], 32) == (p >> ((7 - j) as u32)) & 1u32 by {
        lemma_product_bit(d, rows, (7 - j) as nat);
        lemma_dot2_parity(d, rows[j]);
    }
    let word = spec_encode_base(data);
    assert(word == (d << 8u32) | p);
    lemma_codeword_checks(
        d,
        p,
        rotations(word, 0),
        rotations(word, 1),
        rotations(word, 2),
        rotations(word, 3),
        rotations(word, 4),
        rotations(word, 5),
        rotations(word, 6),
        rotations(word, 7),
        rotations(word, 8),
        rotations(word, 9),
        rotations(word, 10),
        rotations(word, 11),
        rotations(word, 12),
        rotations(word, 13),
        rotations(word, 14),
        rotations(word, 15),
        rotations(word, 16),
        rotations(word, 17),
    );
    assert forall|j: u32| j < 17 implies #[trigger] checks_clear(rotations(word, j)) by {
        assert(j == 0 || j == 1 || j == 2 || j == 3 || j == 4 || j == 5 || j == 6 || j == 7 || j == 8 || j == 9 || j == 10 || j == 11 || j == 12 || j == 13 || j == 14 || j == 15 || j == 16);
    }
}

/// Data of 8 bits, the shortened code's, has the top bit of the base code's
/// 9 data bits clear.
proof fn lemma_short_data(data: u16)
    ensures
        data < 0x100 ==> data >> 8u16 == 0,
{
    vstd::bits::lemma_u16_shr_is_div(data, 8);
    vstd::arithmetic::power2::lemma2_to64();
}

/// Decoding the base codeword of 9 data bits gives back the data with no
/// corrections: every rotation of a codeword has a zero syndrome, and 17
/// rotations restore it. For 8 data bits, the shortened code's, the data
/// has its top bit clear.
pub proof fn lemma_roundtrip(data: u16)
    requires
        data < 0x200,
    ensures
        spec_decode_base(spec_encode_base(data)) == Some((data, 0usize)),
        data < 0x100 ==> data >> 8u16 == 0,
{
    let word = spec_encode_base(data);
    lemma_codeword_rotations(data);
    assert forall|k: nat| k <= 17 implies #[trigger] decode_state(word, k) == (rotations(word, k as u32), Some(0usize)) by {
        lemma_decode_state_clear(word, k);
    }
    assert(decode_state(word, 17) == (rotations(word, 17), Some(0usize)));
    lemma_short_data(data);
}

/// The decoder leaves a word alone, only rotating it, while every rotation
/// it meets has a zero syndrome.
proof fn lemma_decode_state_clear(word: u32, k: nat)
    requires
        k <= 17,
        forall|j: u32| j < 17 ==> #[trigger] checks_clear(rotations(word, j)),
    ensures
        decode_state(word, k) == (rotations(word, k as u32), Some(0usize)),
    decreases k,
{
    if k > 0 {
        lemma_decode_state_clear(word, (k - 1) as nat);
        let current = rotations(word, (k - 1) as u32);
        assert(checks_clear(current));
        lemma_clear_syndrome(current);
        assert((0u16 as u8) == 0u8);
    }
}

/// The table of error patterns through the LSB, as a chain of comparisons
/// on the syndrome.
spec fn pattern_of(s: u32) -> u32 {
    if s == 0x01u32 {
        0b00000000000000001u32
    } else if s == 0x03u32 {
        0b00000000000000011u32
    } else if s == 0x05u32 {
        0b00000000000000101u32
    } else if s == 0x09u32 {
        0b00000000000001001u32
    } else if s == 0x11u32 {
        0b00000000000010001u32
    } else if s == 0x21u32 {
        0b00000000000100001u32
    } else if s == 0x26u32 {
        0b00100000000000001u32
    } else if s == 0x38u32 {
        0b00000000100000001u32
    } else if s == 0x41u32 {
        0b00000000001000001u32
    } else if s == 0x4Fu32 {
        0b01000000000000001u32
    } else if s == 0x73u32 {
        0b00000001000000001u32
    } else if s == 0x81u32 {
        0b00000000010000001u32
    } else if s == 0x8Eu32 {
        0b00010000000000001u32
    } else if s == 0x9Du32 {
        0b10000000000000001u32
    } else if s == 0xDAu32 {
        0b00001000000000001u32
    } else if s == 0xE5u32 {
        0b00000010000000001u32
    } else if s == 0xF0u32 {
        0b00000100000000001u32
    } else {
        0u32
    }
}

/// The chain of comparisons agrees with the table on every 8-bit syndrome.
proof fn lemma_pattern_of(s: u32)
    requires
        s < 256,
    ensures
        pattern_of(s) == patterns(s as u8),
{
}

/// Bit `7 - i` of the syndrome of `x` is the parity of its common bits with
/// check row `i`.
proof fn lemma_syndrome_bits(x: u32)
    ensures
        gf2_product(x, parity_check()) < 256,
        ((gf2_product(x, parity_check()) as u32) >> 7u32) & 1u32 == parity(x & 0b10011110010000000u32, 32),
        ((gf2_product(x, parity_check()) as u32) >> 6u32) & 1u32 == parity(x & 0b01001111001000000u32, 32),
        ((gf2_product(x, parity_check()) as u32) >> 5u32) & 1u32 == parity(x & 0b00100111100100000u32, 32),
        ((gf2_product(x, parity_check()) as u32) >> 4u32) & 1u32 == parity(x & 0b10001101100010000u32, 32),
        ((gf2_product(x, parity_check()) as u32) >> 3u32) & 1u32 == parity(x & 0b11011000100001000u32, 32),
        ((gf2_product(x, parity_check()) as u32) >> 2u32) & 1u32 == parity(x & 0b11110010000000100u32, 32),
        ((gf2_product(x, parity_check()) as u32) >> 1u32) & 1u32 == parity(x & 0b01111001000000010u32, 32),
        ((gf2_product(x, parity_check()) as u32) >> 0u32) & 1u32 == parity(x & 0b00111100100000001u32, 32),
{
    let checks = parity_check();
    lemma_gf2_product_bound(x, checks);
    crate::p25::bitwise::lemma_pow2_shifts();
    let s = gf2_product(x, checks) as u32;
    assert forall|j: int| 0 <= j < 8 implies #[trigger] parity(x & checks[j], 32) == (s >> ((7 - j) as u32)) & 1u32 by {
        lemma_product_bit(x, checks, (7 - j) as nat);
        lemma_dot2_parity(x, checks[j]);
    }
    assert(parity(x & checks[0], 32) == (s >> 7u32) & 1u32);
    assert(parity(x & checks[1], 32) == (s >> 6u32) & 1u32);
    assert(parity(x & checks[2], 32) == (s >> 5u32) & 1u32);
    assert(parity(x & checks[3], 32) == (s >> 4u32) & 1u32);
    assert(parity(x & checks[4], 32) == (s >> 3u32) & 1u32);
    assert(parity(x & checks[5], 32) == (s >> 2u32) & 1u32);
    assert(parity(x & checks[6], 32) == (s >> 1u32) & 1u32);
    assert(parity(x & checks[7], 32) == (s >> 0u32) & 1u32);
}

/// The syndromes of an error of at most two bits among the low 17: zero for
/// no error; the table names the error itself when it covers the LSB; and
/// a non-zero syndrome outside the table when it does not (any two such
/// errors differ by a word of weight at most four, never a codeword).
proof fn lemma_small_error_syndrome(e: u32, s: u32)
    by (bit_vector)
    requires
        e >> 17u32 == 0,
        count(e, 32) <= 2,
        s < 256,
        (s >> 7u32) & 1u32 == parity(e & 0b10011110010000000u32, 32),
        (s >> 6u32) & 1u32 == parity(e & 0b01001111001000000u32, 32),
        (s >> 5u32) & 1u32 == parity(e & 0b00100111100100000u32, 32),
        (s >> 4u32) & 1u32 == parity(e & 0b10001101100010000u32, 32),
        (s >> 3u32) & 1u32 == parity(e & 0b11011000100001000u32, 32),
        (s >> 2u32) & 1u32 == parity(e & 0b11110010000000100u32, 32),
        (s >> 1u32) & 1u32 == parity(e & 0b01111001000000010u32, 32),
        (s >> 0u32) & 1u32 == parity(e & 0b00111100100000001u32, 32),
    ensures
        e == 0 ==> s == 0,
        e & 1u32 == 1u32 ==> pattern_of(s) == e,
        e != 0 && e & 1u32 == 0 ==> s != 0 && pattern_of(s) == 0,
{
}

/// Rotating a word of the low 17 bits keeps it there, keeps its number of
/// set bits (for at most two), and keeps it non-zero.
proof fn lemma_rotate_small(x: u32)
    by (bit_vector)
    requires
        x >> 17u32 == 0,
        count(x, 32) <= 2,
    ensures
        spec_rotate_17(x) >> 17u32 == 0,
        count(spec_rotate_17(x), 32) == count(x, 32),
        x != 0 ==> spec_rotate_17(x) != 0,
{
}

/// A non-zero word of the low 17 bits has a set LSB in one of its first 17
/// rotations.
proof fn lemma_some_rotation_low(r0: u32, r1: u32, r2: u32, r3: u32, r4: u32, r5: u32, r6: u32, r7: u32, r8: u32, r9: u32, r10: u32, r11: u32, r12: u32, r13: u32, r14: u32, r15: u32, r16: u32)
    by (bit_vector)
    requires
        r0 >> 17u32 == 0,
        r0 != 0,
        r1 == spec_rotate_17(r0),
        r2 == spec_rotate_17(r1),
        r3 == spec_rotate_17(r2),
        r4 == spec_rotate_17(r3),
        r5 == spec_rotate_17(r4),
        r6 == spec_rotate_17(r5),
        r7 == spec_rotate_17(r6),
        r8 == spec_rotate_17(r7),
        r9 == spec_rotate_17(r8),
        r10 == spec_rotate_17(r9),
        r11 == spec_rotate_17(r10),
        r12 == spec_rotate_17(r11),
        r13 == spec_rotate_17(r12),
        r14 == spec_rotate_17(r13),
        r15 == spec_rotate_17(r14),
        r16 == spec_rotate_17(r15),
    ensures
        r0 & 1u32 == 1u32 || r1 & 1u32 == 1u32 || r2 & 1u32 == 1u32 || r3 & 1u32 == 1u32 || r4 & 1u32 == 1u32 || r5 & 1u32 == 1u32 || r6 & 1u32 == 1u32 || r7 & 1u32 == 1u32 || r8 & 1u32 == 1u32 || r9 & 1u32 == 1u32 || r10 & 1u32 == 1u32 || r11 & 1u32 == 1u32 || r12 & 1u32 == 1u32 || r13 & 1u32 == 1u32 || r14 & 1u32 == 1u32 || r15 & 1u32 == 1u32 || r16 & 1u32 == 1u32,
{
}

/// Exclusive or with itself or with zero behaves as in any group, and zero
/// is a word of the low 17 bits with no set bit that rotates to itself.
proof fn lemma_xor_facts(a: u32, b: u32)
    by (bit_vector)
    ensures
        b ^ b == 0,
        a ^ 0 == a,
        spec_rotate_17(0) == 0,
        0u32 >> 17u32 == 0,
        count(0u32, 32) == 0,
        a & 1u32 == 0 || a & 1u32 == 1,
{
}

/// On words of the low 17 bits, rotation distributes over exclusive or,
/// also with an entry of the table, and keeps them there.
proof fn lemma_xor_rotate(a: u32, b: u32, s: u32)
    by (bit_vector)
    requires
        a >> 17u32 == 0,
        b >> 17u32 == 0,
    ensures
        spec_rotate_17(a ^ b) == spec_rotate_17(a) ^ spec_rotate_17(b),
        spec_rotate_17((a ^ b) ^ pattern_of(s)) == spec_rotate_17(a) ^ spec_rotate_17(b ^ pattern_of(s)),
        spec_rotate_17(a) >> 17u32 == 0,
        spec_rotate_17(b ^ pattern_of(s)) >> 17u32 == 0,
{
}

/// The rotations of a word of the low 17 bits stay there.
proof fn lemma_rotations_bound(c: u32, j: u32)
    requires
        c >> 17u32 == 0,
    ensures
        rotations(c, j) >> 17u32 == 0,
    decreases j,
{
    if j > 0 {
        lemma_rotations_bound(c, (j - 1) as u32);
        lemma_xor_rotate(rotations(c, (j - 1) as u32), rotations(c, (j - 1) as u32), 0);
    }
}

/// The decoder keeps a word of the low 17 bits there.
proof fn lemma_decode_bound(x: u32, k: nat)
    requires
        x >> 17u32 == 0,
    ensures
        decode_state(x, k).0 >> 17u32 == 0,
    decreases k,
{
    if k > 0 {
        lemma_decode_bound(x, (k - 1) as nat);
        let cur = decode_state(x, (k - 1) as nat).0;
        let syndrome = gf2_product(cur, parity_check()) as u8;
        lemma_pattern_of(syndrome as u32);
        lemma_xor_rotate(cur, cur, syndrome as u32);
    }
}

/// Words whose inner products with every row agree have the same product.
proof fn lemma_product_agree(a: u32, b: u32, rows: Seq<u32>)
    requires
        forall|i: int| 0 <= i < rows.len() ==> dot2(a, #[trigger] rows[i]) == dot2(b, rows[i]),
    ensures
        gf2_product(a, rows) == gf2_product(b, rows),
    decreases rows.len(),
{
    if rows.len() > 0 {
        let prefix = rows.drop_last();
        assert forall|i: int| 0 <= i < prefix.len() implies dot2(a, #[trigger] prefix[i]) == dot2(b, prefix[i]) by {
            assert(prefix[i] == rows[i]);
        }
        lemma_product_agree(a, b, prefix);
        assert(dot2(a, rows[rows.len() - 1]) == dot2(b, rows[rows.len() - 1]));
    }
}

/// Adding a word orthogonal to every check row leaves the syndrome alone.
proof fn lemma_syndrome_shift(w: u32, x: u32)
    requires
        checks_clear(w),
    ensures
        gf2_product(w ^ x, parity_check()) == gf2_product(x, parity_check()),
{
    let checks = parity_check();
    assert forall|i: int| 0 <= i < 8 implies dot2(w ^ x, #[trigger] checks[i]) == dot2(x, checks[i]) by {
        lemma_dot2_parity(w ^ x, checks[i]);
        lemma_dot2_parity(w, checks[i]);
        lemma_dot2_parity(x, checks[i]);
        lemma_parity_xor(w, x, checks[i], 32);
    }
    lemma_product_agree(w ^ x, x, checks);
}

/// How one decoder step treats an error word of at most two bits among the
/// low 17, in terms of the table.
proof fn lemma_step_syndrome(e: u32)
    requires
        e >> 17u32 == 0,
        count(e, 32) <= 2,
    ensures
        e == 0 ==> gf2_product(e, parity_check()) as u8 == 0,
        e & 1u32 == 1u32 ==> patterns(gf2_product(e, parity_check()) as u8) == e,
        e != 0 && e & 1u32 == 0 ==> gf2_product(e, parity_check()) as u8 != 0 && patterns(
            gf2_product(e, parity_check()) as u8,
        ) == 0,
{
    lemma_syndrome_bits(e);
    let s = gf2_product(e, parity_check()) as u32;
    lemma_small_error_syndrome(e, s);
    lemma_pattern_of(s);
}

/// Every rotation of an error word of at most two bits among the low 17
/// stays there, with as many bits, and non-zero if the word is.
proof fn lemma_rotations_small(e: u32, j: u32)
    requires
        e >> 17u32 == 0,
        count(e, 32) <= 2,
    ensures
        rotations(e, j) >> 17u32 == 0,
        count(rotations(e, j), 32) == count(e, 32),
        e != 0 ==> rotations(e, j) != 0,
    decreases j,
{
    if j > 0 {
        lemma_rotations_small(e, (j - 1) as u32);
        lemma_rotate_small(rotations(e, (j - 1) as u32));
    }
}

/// The decoder on a word with at most two set bits among the low 17: it
/// only rotates, marking the word uncorrectable, until a rotation brings a
/// set bit to the LSB; there it clears the whole pattern at once and
/// counts its bits, and from then on meets only zero syndromes.
proof fn lemma_error_evolution(e: u32, k: nat)
    requires
        e >> 17u32 == 0,
        weight(e) <= 2,
        k <= 17,
    ensures
        e == 0 ==> decode_state(e, k) == (0u32, Some(0usize)),
        e != 0 ==> ((decode_state(e, k).0 == rotations(e, k as u32) && decode_state(e, k).1 == (if k == 0 {
            Some(0usize)
        } else {
            None
        }) && forall|j: u32| j < k ==> #[trigger] rotations(e, j) & 1u32 == 0) || decode_state(e, k) == (
            0u32,
            Some(weight(e) as usize),
        )),
    decreases k,
{
    lemma_count_ones(e, 32);
    if k > 0 {
        lemma_error_evolution(e, (k - 1) as nat);
        let (cur, cnt) = decode_state(e, (k - 1) as nat);
        lemma_xor_facts(cur, cur);
        lemma_step_syndrome(0);
        let r = rotations(e, (k - 1) as u32);
        lemma_rotations_small(e, (k - 1) as u32);
        assert(rotations(e, k as u32) == spec_rotate_17(r));
        if e != 0 && cur != 0 {
            assert(cur == r);
            lemma_step_syndrome(r);
            lemma_count_ones(r, 32);
            lemma_xor_facts(r, r);
            let syndrome = gf2_product(r, parity_check()) as u8;
            if r & 1u32 == 0 {
                assert(decode_state(e, k) == (spec_rotate_17(r), None::<usize>));
                assert forall|j: u32| j < k implies #[trigger] rotations(e, j) & 1u32 == 0 by {
                    if j < k - 1 {
                    } else {
                        assert(j == k - 1);
                    }
                }
            } else {
                assert(patterns(syndrome) == r);
                assert(decode_state(e, k) == (0u32, Some(weight(e) as usize)));
            }
        } else if e != 0 {
            assert(cur == 0);
            assert(decode_state(e, k) == (0u32, Some(weight(e) as usize)));
        }
    }
}

/// The decoder on a codeword plus a word `x` runs as on `x` alone, the
/// codeword rotating along: the syndromes see only `x`.
proof fn lemma_decode_shift(c: u32, x: u32, k: nat)
    requires
        k <= 17,
        c >> 17u32 == 0,
        x >> 17u32 == 0,
        forall|j: u32| j < 17 ==> #[trigger] checks_clear(rotations(c, j)),
    ensures
        decode_state(c ^ x, k) == (rotations(c, k as u32) ^ decode_state(x, k).0, decode_state(x, k).1),
    decreases k,
{
    if k > 0 {
        lemma_decode_shift(c, x, (k - 1) as nat);
        let rc = rotations(c, (k - 1) as u32);
        let (ex, cnt) = decode_state(x, (k - 1) as nat);
        assert(checks_clear(rc));
        lemma_syndrome_shift(rc, ex);
        let syndrome = gf2_product(ex, parity_check()) as u8;
        lemma_rotations_bound(c, (k - 1) as u32);
        lemma_decode_bound(x, (k - 1) as nat);
        lemma_pattern_of(syndrome as u32);
        lemma_xor_rotate(rc, ex, syndrome as u32);
    }
}

/// Decoding corrects every pattern of at most two bit errors in a base
/// codeword: the data comes back, with the number of errors corrected.
/// For 8 data bits, the shortened code's, the data has its top bit clear.
pub proof fn lemma_corrects_two(data: u16, error: u32)
    requires
        data < 0x200,
        error >> 17u32 == 0,
        weight(error) <= 2,
    ensures
        spec_decode_base(spec_encode_base(data) ^ error) == Some((data, weight(error) as usize)),
        data < 0x100 ==> data >> 8u16 == 0,
{
    let c = spec_encode_base(data);
    lemma_codeword_rotations(data);
    lemma_decode_shift(c, error, 17);
    lemma_error_evolution(error, 17);
    lemma_count_ones(error, 32);
    lemma_xor_facts(c, 0);
    lemma_rotations_small(error, 17);
    if error != 0 && decode_state(error, 17).0 != 0 {
        assert(rotations(error, 0) & 1u32 == 0);
        assert(rotations(error, 1) & 1u32 == 0);
        assert(rotations(error, 2) & 1u32 == 0);
        assert(rotations(error, 3) & 1u32 == 0);
        assert(rotations(error, 4) & 1u32 == 0);
        assert(rotations(error, 5) & 1u32 == 0);
        assert(rotations(error, 6) & 1u32 == 0);
        assert(rotations(error, 7) & 1u32 == 0);
        assert(rotations(error, 8) & 1u32 == 0);
        assert(rotations(error, 9) & 1u32 == 0);
        assert(rotations(error, 10) & 1u32 == 0);
        assert(rotations(error, 11) & 1u32 == 0);
        assert(rotations(error, 12) & 1u32 == 0);
        assert(rotations(error, 13) & 1u32 == 0);
        assert(rotations(error, 14) & 1u32 == 0);
        assert(rotations(error, 15) & 1u32 == 0);
        assert(rotations(error, 16) & 1u32 == 0);
        lemma_some_rotation_low(
            rotations(error, 0),
            rotations(error, 1),
            rotations(error, 2),
            rotations(error, 3),
            rotations(error, 4),
            rotations(error, 5),
            rotations(error, 6),
            rotations(error, 7),
            rotations(error, 8),
            rotations(error, 9),
            rotations(error, 10),
            rotations(error, 11),
            rotations(error, 12),
            rotations(error, 13),
            rotations(error, 14),
            rotations(error, 15),
            rotations(error, 16),
        );
        assert(false);
    }
    assert(decode_state(c ^ error, 17) == (c, Some(weight(error) as usize)));
    lemma_short_data(data);
}

} // verus!

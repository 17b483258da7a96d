//! Encoding and decoding of the (23, 12, 7) standard Golay code.
//!
//! Corrects up to 3 bit errors and detects 4 bit errors.
//! Used for IMBE voice frame chunks u_0 through u_3.

use vstd::prelude::*;
use super::{count, count_ones, find_close, first_close, gf2_matrix_multiply, gf2_product, parity, weight};

verus! {

/// Transpose of the generator parity submatrix **A**^T.
pub open spec fn parity_generator() -> Seq<u32> {
    seq![
        0b101001001111u32,
        0b111101101000u32,
        0b011110110100u32,
        0b001111011010u32,
        0b000111101101u32,
        0b101010111001u32,
        0b111100010011u32,
        0b110111000110u32,
        0b011011100011u32,
        0b100100111110u32,
        0b010010011111u32,
    ]
}

/// Parity-check matrix **H** = [**A**^T | **I**], used to compute syndromes: s = word * **H**^T.
pub open spec fn parity_check() -> Seq<u32> {
    seq![
        0b10100100111110000000000u32,
        0b11110110100001000000000u32,
        0b01111011010000100000000u32,
        0b00111101101000010000000u32,
        0b00011110110100001000000u32,
        0b10101011100100000100000u32,
        0b11110001001100000010000u32,
        0b11011100011000000001000u32,
        0b01101110001100000000100u32,
        0b10010011111000000000010u32,
        0b01001001111100000000001u32,
    ]
}

/// Syndromes for single-bit errors in the 12 data bit positions (index 0 is the data MSB).
pub open spec fn data_bit_syndromes() -> Seq<u16> {
    seq![
        0b10001110101u16,
        0b10010011111u16,
        0b10101001011u16,
        0b11011100011u16,
        0b00110110011u16,
        0b01101100110u16,
        0b11011001100u16,
        0b00111101101u16,
        0b01111011010u16,
        0b11110110100u16,
        0b01100011101u16,
        0b11000111010u16,
    ]
}

fn parity_generator_rows() -> (r: [u32; 11])
    ensures
        r@ == parity_generator(),
{
    let r: [u32; 11] = [
        0b101001001111,
        0b111101101000,
        0b011110110100,
        0b001111011010,
        0b000111101101,
        0b101010111001,
        0b111100010011,
        0b110111000110,
        0b011011100011,
        0b100100111110,
        0b010010011111,
    ];
    assert(r@ =~= parity_generator());
    r
}

fn parity_check_rows() -> (r: [u32; 11])
    ensures
        r@ == parity_check(),
{
    let r: [u32; 11] = [
        0b10100100111110000000000,
        0b11110110100001000000000,
        0b01111011010000100000000,
        0b00111101101000010000000,
        0b00011110110100001000000,
        0b10101011100100000100000,
        0b11110001001100000010000,
        0b11011100011000000001000,
        0b01101110001100000000100,
        0b10010011111000000000010,
        0b01001001111100000000001,
    ];
    assert(r@ =~= parity_check());
    r
}

fn data_bit_syndrome_rows() -> (r: [u16; 12])
    ensures
        r@ == data_bit_syndromes(),
{
    let r: [u16; 12] = [
        0b10001110101,
        0b10010011111,
        0b10101001011,
        0b11011100011,
        0b00110110011,
        0b01101100110,
        0b11011001100,
        0b00111101101,
        0b01111011010,
        0b11110110100,
        0b01100011101,
        0b11000111010,
    ];
    assert(r@ =~= data_bit_syndromes());
    r
}

/// Circularly shift a 23-bit word right by 11 positions.
pub open spec fn spec_rotate_23(word: u32) -> u32 {
    (word >> 11u32) | ((word & 0x7FF) << 12u32)
}

/// The codeword for 12 data bits: `[data (12 bits) | parity (11 bits)]`.
pub open spec fn spec_encode(data: u16) -> u32 {
    ((data as u32) << 11u32) | (gf2_product(data as u32, parity_generator()) as u32)
}

/// The decoding procedure: syndrome weight up to 3 means the errors are in
/// the parity bits; a data-bit syndrome within two bits means one data
/// error; otherwise the word is rotated so that data errors land in the
/// parity positions and the search is repeated.
pub open spec fn spec_decode(word: u32) -> Option<(u16, usize)> {
    let data = (word >> 11u32) as u16;
    let syn = gf2_product(word, parity_check());
    let w = weight(syn as u32);
    if w <= 3 {
        Some((data, w as usize))
    } else {
        match first_close(syn, data_bit_syndromes(), 0) {
            Some(i) => Some(
                ((data ^ (1u16 << (i as u16))) as u16, (weight((syn ^ data_bit_syndromes()[i as int]) as u32) + 1) as usize),
            ),
            None => {
                let syn2 = gf2_product(spec_rotate_23(word), parity_check());
                let w2 = weight(syn2 as u32);
                if w2 <= 3 {
                    Some(((data ^ syn2) as u16, w2 as usize))
                } else {
                    match first_close(syn2, data_bit_syndromes(), 0) {
                        Some(i) => {
                            let residual = (syn2 ^ data_bit_syndromes()[i as int]) as u16;
                            if i == 0 {
                                Some((((data ^ residual) as u16 ^ (1u16 << 11u16)) as u16, (weight(residual as u32) + 1) as usize))
                            } else {
                                Some(((data ^ residual) as u16, 3usize))
                            }
                        },
                        None => None,
                    }
                }
            },
        }
    }
}

/// A decoded 23-bit word yields 12 data bits and at most three corrections.
pub proof fn lemma_decode_bounds(word: u32)
    requires
        word >> 23u32 == 0,
    ensures
        spec_decode(word) matches Some((d, n)) ==> d < 0x1000 && n <= 3,
{
    let data = (word >> 11u32) as u16;
    crate::p25::bitwise::lemma_xor_bound(word, 0, 0, 0);
    crate::p25::bitwise::lemma_mask_u32(word);
    assert(word < 0x80_0000);
    assert(data < 0x1000);
    let syn = gf2_product(word, parity_check());
    super::lemma_gf2_product_bound(word, parity_check());
    crate::p25::bitwise::lemma_pow2_shifts();
    assert(forall|k: int| 0 <= k < 12 ==> #[trigger] data_bit_syndromes()[k] < 0x800);
    super::lemma_first_close_bound(syn, data_bit_syndromes(), 0);
    if weight(syn as u32) <= 3 {
        assert(data < 0x1000);
        assert(spec_decode(word) == Some((data, weight(syn as u32) as usize)));
    } else if let Some(i) = first_close(syn, data_bit_syndromes(), 0) {
        assert(i < 12);
        crate::p25::bitwise::lemma_xor_bound(0, 0, data, i as u16);
        crate::p25::bitwise::lemma_xor_bound(0, 0, data, (1u16 << (i as u16)));
        assert(spec_decode(word) == Some(((data ^ (1u16 << (i as u16))) as u16, (weight((syn ^ data_bit_syndromes()[i as int]) as u32) + 1) as usize)));
    } else {
        let syn2 = gf2_product(spec_rotate_23(word), parity_check());
        super::lemma_gf2_product_bound(spec_rotate_23(word), parity_check());
        super::lemma_first_close_bound(syn2, data_bit_syndromes(), 0);
        crate::p25::bitwise::lemma_xor_bound(0, 0, data, syn2);
        if weight(syn2 as u32) <= 3 {
            assert(syn2 < 0x800);
            assert(spec_decode(word) matches Some((d, n)) ==> d < 0x1000 && n <= 3);
        } else if let Some(i) = first_close(syn2, data_bit_syndromes(), 0) {
            let residual = (syn2 ^ data_bit_syndromes()[i as int]) as u16;
            crate::p25::bitwise::lemma_xor_bound(0, 0, syn2, data_bit_syndromes()[i as int]);
            crate::p25::bitwise::lemma_xor_bound(0, 0, data, residual);
            crate::p25::bitwise::lemma_xor_bound(0, 0, (data ^ residual) as u16, 0x800);
            assert(spec_decode(word) matches Some((d, n)) ==> d < 0x1000 && n <= 3);
        } else {
            assert(spec_decode(word) is None);
        }
    }
}

/// Encode the given 12 data bits into a 23-bit codeword.
///
/// The input must have only the 12 least significant bits set.
/// Returns the systematic codeword: `[data (12 bits) | parity (11 bits)]`.
pub fn encode(data: u16) -> (r: u32)
    requires
        data >> 12u16 == 0,
    ensures
        r == spec_encode(data),
{
    let rows = parity_generator_rows();
    let parity = gf2_matrix_multiply(data as u32, rows.as_slice());
    ((data as u32) << 11) | parity as u32
}

/// Try to decode the given 23-bit word to the nearest codeword,
/// correcting up to 3 bit errors.
///
/// Returns `Some((data, error_count))` on success, where `data` is
/// the 12 recovered data bits and `error_count` is the number of
/// corrected bits. Returns `None` for unrecoverable errors (4+ bits).
pub fn decode(word: u32) -> (r: Option<(u16, usize)>)
    requires
        word >> 23u32 == 0,
    ensures
        r == spec_decode(word),
{
    let data = (word >> 11) as u16;
    let checks = parity_check_rows();
    let singles = data_bit_syndrome_rows();

    // Compute syndrome: s = word * H^T
    let syndrome = gf2_matrix_multiply(word, checks.as_slice());
    let weight = count_ones(syndrome as u32) as usize;

    // Case 1: 0-3 errors in parity bits only
    if weight <= 3 {
        return Some((data, weight));
    }

    // Case 2: 1 error in data bits, 0-2 errors in parity bits
    match find_close(syndrome, singles.as_slice()) {
        Some(i) => {
            let residual = syndrome ^ singles[i];
            let weight = count_ones(residual as u32) as usize;
            return Some((data ^ (1 << i as u16), weight + 1));
        },
        None => {},
    }

    // Case 3: 2-3 errors in data bits (rotate and recheck)
    let rotated = rotate_23(word);
    let syndrome = gf2_matrix_multiply(rotated, checks.as_slice());
    let weight = count_ones(syndrome as u32) as usize;

    if weight <= 3 {
        return Some((data ^ syndrome, weight));
    }

    // Case 4: 2-3 errors in data bits with 0-1 in parity bits
    match find_close(syndrome, singles.as_slice()) {
        Some(i) => {
            let residual = syndrome ^ singles[i];
            let weight = count_ones(residual as u32) as usize;
            // Syndrome index 0 = data MSB (now rotated into upper bits)
            if i == 0 {
                Some((data ^ residual ^ (1 << 11), weight + 1))
            } else {
                Some((data ^ residual, 3))
            }
        },
        None => None,
    }
}

/// Circularly shift a 23-bit word right by 11 positions.
fn rotate_23(word: u32) -> (r: u32)
    ensures
        r == spec_rotate_23(word),
{
    let lower = word & 0x7FF;  // bits 0..11
    (word >> 11) | (lower << 12)
}


/// Every codeword `[d | p]`, its parity bits `p` computed from the rows of
/// **A**^T, is orthogonal to every row of **H**, and its upper 12 bits are
/// the data.
proof fn lemma_codeword_checks(d: u32, p: u32)
    by (bit_vector)
    requires
        d < 0x1000,
        p < 0x800,
        parity(d & 0b101001001111u32, 32) == (p >> 10u32) & 1u32,
        parity(d & 0b111101101000u32, 32) == (p >> 9u32) & 1u32,
        parity(d & 0b011110110100u32, 32) == (p >> 8u32) & 1u32,
        parity(d & 0b001111011010u32, 32) == (p >> 7u32) & 1u32,
        parity(d & 0b000111101101u32, 32) == (p >> 6u32) & 1u32,
        parity(d & 0b101010111001u32, 32) == (p >> 5u32) & 1u32,
        parity(d & 0b111100010011u32, 32) == (p >> 4u32) & 1u32,
        parity(d & 0b110111000110u32, 32) == (p >> 3u32) & 1u32,
        parity(d & 0b011011100011u32, 32) == (p >> 2u32) & 1u32,
        parity(d & 0b100100111110u32, 32) == (p >> 1u32) & 1u32,
        parity(d & 0b010010011111u32, 32) == (p >> 0u32) & 1u32,
    ensures
        parity(((d << 11u32) | p) & 0b10100100111110000000000u32, 32) == 0,
        parity(((d << 11u32) | p) & 0b11110110100001000000000u32, 32) == 0,
        parity(((d << 11u32) | p) & 0b01111011010000100000000u32, 32) == 0,
        parity(((d << 11u32) | p) & 0b00111101101000010000000u32, 32) == 0,
        parity(((d << 11u32) | p) & 0b00011110110100001000000u32, 32) == 0,
        parity(((d << 11u32) | p) & 0b10101011100100000100000u32, 32) == 0,
        parity(((d << 11u32) | p) & 0b11110001001100000010000u32, 32) == 0,
        parity(((d << 11u32) | p) & 0b11011100011000000001000u32, 32) == 0,
        parity(((d << 11u32) | p) & 0b01101110001100000000100u32, 32) == 0,
        parity(((d << 11u32) | p) & 0b10010011111000000000010u32, 32) == 0,
        parity(((d << 11u32) | p) & 0b01001001111100000000001u32, 32) == 0,
        ((d << 11u32) | p) >> 11u32 == d,
        parity(spec_rotate_23((d << 11u32) | p) & 0b10100100111110000000000u32, 32) == 0,
        parity(spec_rotate_23((d << 11u32) | p) & 0b11110110100001000000000u32, 32) == 0,
        parity(spec_rotate_23((d << 11u32) | p) & 0b01111011010000100000000u32, 32) == 0,
        parity(spec_rotate_23((d << 11u32) | p) & 0b00111101101000010000000u32, 32) == 0,
        parity(spec_rotate_23((d << 11u32) | p) & 0b00011110110100001000000u32, 32) == 0,
        parity(spec_rotate_23((d << 11u32) | p) & 0b10101011100100000100000u32, 32) == 0,
        parity(spec_rotate_23((d << 11u32) | p) & 0b11110001001100000010000u32, 32) == 0,
        parity(spec_rotate_23((d << 11u32) | p) & 0b11011100011000000001000u32, 32) == 0,
        parity(spec_rotate_23((d << 11u32) | p) & 0b01101110001100000000100u32, 32) == 0,
        parity(spec_rotate_23((d << 11u32) | p) & 0b10010011111000000000010u32, 32) == 0,
        parity(spec_rotate_23((d << 11u32) | p) & 0b01001001111100000000001u32, 32) == 0,
{
}

/// Decoding a codeword gives back its data with no corrections.
pub proof fn lemma_roundtrip(data: u16)
    requires
        data < 0x1000,
    ensures
        spec_decode(spec_encode(data)) == Some((data, 0usize)),
{
    let d = data as u32;
    let rows = parity_generator();
    let p = gf2_product(d, rows) as u32;
    super::lemma_gf2_product_bound(d, rows);
    crate::p25::bitwise::lemma_pow2_shifts();
    assert forall|j: int| 0 <= j < 11 implies #[trigger] super::parity(d & rows[j], 32) == (p >> ((10 - j) as u32)) & 1u32 by {
        super::lemma_product_bit(d, rows, (10 - j) as nat);
        super::lemma_dot2_parity(d, rows[j]);
    }
    lemma_codeword_checks(d, p);
    let word = spec_encode(data);
    assert(word == (d << 11u32) | p);
    let checks = parity_check();
    assert forall|i: int| 0 <= i < 11 implies super::dot2(word, #[trigger] checks[i]) == 0 by {
        super::lemma_dot2_parity(word, checks[i]);
    }
    super::lemma_product_zero(word, checks);
    super::lemma_ones_zero(32);
}

/// Entry `i` of the data-bit syndrome table, 0 past the last.
pub open spec fn data_syndrome_row(i: u32) -> u16 {
    if i == 0 {
        0b10001110101u16
    } else if i == 1 {
        0b10010011111u16
    } else if i == 2 {
        0b10101001011u16
    } else if i == 3 {
        0b11011100011u16
    } else if i == 4 {
        0b00110110011u16
    } else if i == 5 {
        0b01101100110u16
    } else if i == 6 {
        0b11011001100u16
    } else if i == 7 {
        0b00111101101u16
    } else if i == 8 {
        0b01111011010u16
    } else if i == 9 {
        0b11110110100u16
    } else if i == 10 {
        0b01100011101u16
    } else if i == 11 {
        0b11000111010u16
    } else {
        0
    }
}

/// The first data-bit syndrome within two bits of `s`, or 12 if none is.
pub open spec fn close_data_syndrome(s: u16) -> u32 {
    if count((s ^ 0b10001110101u16) as u32, 32) <= 2 {
        0
    } else if count((s ^ 0b10010011111u16) as u32, 32) <= 2 {
        1
    } else if count((s ^ 0b10101001011u16) as u32, 32) <= 2 {
        2
    } else if count((s ^ 0b11011100011u16) as u32, 32) <= 2 {
        3
    } else if count((s ^ 0b00110110011u16) as u32, 32) <= 2 {
        4
    } else if count((s ^ 0b01101100110u16) as u32, 32) <= 2 {
        5
    } else if count((s ^ 0b11011001100u16) as u32, 32) <= 2 {
        6
    } else if count((s ^ 0b00111101101u16) as u32, 32) <= 2 {
        7
    } else if count((s ^ 0b01111011010u16) as u32, 32) <= 2 {
        8
    } else if count((s ^ 0b11110110100u16) as u32, 32) <= 2 {
        9
    } else if count((s ^ 0b01100011101u16) as u32, 32) <= 2 {
        10
    } else if count((s ^ 0b11000111010u16) as u32, 32) <= 2 {
        11
    } else {
        12
    }
}

/// Whether the decoding procedure corrects a word with syndrome `s1`,
/// and `s2` after rotation.
pub open spec fn syndrome_decodable(s1: u16, s2: u16) -> bool {
    count(s1 as u32, 32) <= 3 || close_data_syndrome(s1) < 12 || count(s2 as u32, 32) <= 3 || close_data_syndrome(s2)
        < 12
}

/// The data that the decoding procedure gives for received data bits
/// `data` and syndromes `s1`, `s2`.
pub open spec fn syndrome_data(data: u16, s1: u16, s2: u16) -> u16 {
    if count(s1 as u32, 32) <= 3 {
        data
    } else if close_data_syndrome(s1) < 12 {
        data ^ (1u16 << (close_data_syndrome(s1) as u16))
    } else if count(s2 as u32, 32) <= 3 {
        data ^ s2
    } else if close_data_syndrome(s2) == 0 {
        (data ^ (s2 ^ data_syndrome_row(0))) ^ (1u16 << 11u16)
    } else {
        data ^ (s2 ^ data_syndrome_row(close_data_syndrome(s2)))
    }
}

/// The correction count that the decoding procedure gives for syndromes
/// `s1`, `s2`.
pub open spec fn syndrome_count(s1: u16, s2: u16) -> u32 {
    if count(s1 as u32, 32) <= 3 {
        count(s1 as u32, 32)
    } else if close_data_syndrome(s1) < 12 {
        (count((s1 ^ data_syndrome_row(close_data_syndrome(s1))) as u32, 32) + 1) as u32
    } else if count(s2 as u32, 32) <= 3 {
        count(s2 as u32, 32)
    } else if close_data_syndrome(s2) == 0 {
        (count((s2 ^ data_syndrome_row(0)) as u32, 32) + 1) as u32
    } else {
        3
    }
}

/// The first close table entry, read off the written-out search.
proof fn lemma_first_close_rows(s: u16)
    ensures
        first_close(s, data_bit_syndromes(), 0) == (if close_data_syndrome(s) < 12 {
            Some(close_data_syndrome(s) as nat)
        } else {
            None::<nat>
        }),
        close_data_syndrome(s) < 12 ==> data_bit_syndromes()[close_data_syndrome(s) as int] == data_syndrome_row(
            close_data_syndrome(s),
        ),
{
    let t = data_bit_syndromes();
    assert(t[0] == 0b10001110101u16);
    super::lemma_count_ones((s ^ t[0]) as u32, 32);
    assert(t[1] == 0b10010011111u16);
    super::lemma_count_ones((s ^ t[1]) as u32, 32);
    assert(t[2] == 0b10101001011u16);
    super::lemma_count_ones((s ^ t[2]) as u32, 32);
    assert(t[3] == 0b11011100011u16);
    super::lemma_count_ones((s ^ t[3]) as u32, 32);
    assert(t[4] == 0b00110110011u16);
    super::lemma_count_ones((s ^ t[4]) as u32, 32);
    assert(t[5] == 0b01101100110u16);
    super::lemma_count_ones((s ^ t[5]) as u32, 32);
    assert(t[6] == 0b11011001100u16);
    super::lemma_count_ones((s ^ t[6]) as u32, 32);
    assert(t[7] == 0b00111101101u16);
    super::lemma_count_ones((s ^ t[7]) as u32, 32);
    assert(t[8] == 0b01111011010u16);
    super::lemma_count_ones((s ^ t[8]) as u32, 32);
    assert(t[9] == 0b11110110100u16);
    super::lemma_count_ones((s ^ t[9]) as u32, 32);
    assert(t[10] == 0b01100011101u16);
    super::lemma_count_ones((s ^ t[10]) as u32, 32);
    assert(t[11] == 0b11000111010u16);
    super::lemma_count_ones((s ^ t[11]) as u32, 32);
    assert(first_close(s, t, 12) is None);
    assert(first_close(s, t, 11) == if weight((s ^ t[11]) as u32) <= 2 { Some(11nat) } else { first_close(s, t, 12) });
    assert(first_close(s, t, 10) == if weight((s ^ t[10]) as u32) <= 2 { Some(10nat) } else { first_close(s, t, 11) });
    assert(first_close(s, t, 9) == if weight((s ^ t[9]) as u32) <= 2 { Some(9nat) } else { first_close(s, t, 10) });
    assert(first_close(s, t, 8) == if weight((s ^ t[8]) as u32) <= 2 { Some(8nat) } else { first_close(s, t, 9) });
    assert(first_close(s, t, 7) == if weight((s ^ t[7]) as u32) <= 2 { Some(7nat) } else { first_close(s, t, 8) });
    assert(first_close(s, t, 6) == if weight((s ^ t[6]) as u32) <= 2 { Some(6nat) } else { first_close(s, t, 7) });
    assert(first_close(s, t, 5) == if weight((s ^ t[5]) as u32) <= 2 { Some(5nat) } else { first_close(s, t, 6) });
    assert(first_close(s, t, 4) == if weight((s ^ t[4]) as u32) <= 2 { Some(4nat) } else { first_close(s, t, 5) });
    assert(first_close(s, t, 3) == if weight((s ^ t[3]) as u32) <= 2 { Some(3nat) } else { first_close(s, t, 4) });
    assert(first_close(s, t, 2) == if weight((s ^ t[2]) as u32) <= 2 { Some(2nat) } else { first_close(s, t, 3) });
    assert(first_close(s, t, 1) == if weight((s ^ t[1]) as u32) <= 2 { Some(1nat) } else { first_close(s, t, 2) });
    assert(first_close(s, t, 0) == if weight((s ^ t[0]) as u32) <= 2 { Some(0nat) } else { first_close(s, t, 1) });
}

/// The decoding procedure, written over the syndromes of the word and of
/// its rotation.
proof fn lemma_decode_syndromes(word: u32)
    ensures
        ({
            let s1 = gf2_product(word, parity_check());
            let s2 = gf2_product(spec_rotate_23(word), parity_check());
            let data = (word >> 11u32) as u16;
            spec_decode(word) == if syndrome_decodable(s1, s2) {
                Some((syndrome_data(data, s1, s2), syndrome_count(s1, s2) as usize))
            } else {
                None
            }
        }),
{
    let s1 = gf2_product(word, parity_check());
    let s2 = gf2_product(spec_rotate_23(word), parity_check());
    lemma_first_close_rows(s1);
    lemma_first_close_rows(s2);
    super::lemma_count_ones(s1 as u32, 32);
    super::lemma_count_ones(s2 as u32, 32);
    if close_data_syndrome(s1) < 12 {
        super::lemma_count_ones((s1 ^ data_syndrome_row(close_data_syndrome(s1))) as u32, 32);
    }
    if close_data_syndrome(s2) < 12 {
        super::lemma_count_ones((s2 ^ data_syndrome_row(close_data_syndrome(s2))) as u32, 32);
    }
}

/// The decoding procedure on the syndromes of an error pattern `e`: every
/// pattern of up to two errors is corrected exactly, and so is every
/// pattern of three unless they are the top data bit, one other data bit
/// and one parity bit.
#[verifier::rlimit(100)]
proof fn lemma_error_syndromes(d: u16, e: u32, s1: u16, s2: u16)
    by (bit_vector)
    requires
        d < 0x1000,
        e < 0x80_0000,
        s1 < 0x800,
        s2 < 0x800,
        ((s1 as u32) >> 10u32) & 1u32 == parity(e & 0b10100100111110000000000u32, 32),
        ((s1 as u32) >> 9u32) & 1u32 == parity(e & 0b11110110100001000000000u32, 32),
        ((s1 as u32) >> 8u32) & 1u32 == parity(e & 0b01111011010000100000000u32, 32),
        ((s1 as u32) >> 7u32) & 1u32 == parity(e & 0b00111101101000010000000u32, 32),
        ((s1 as u32) >> 6u32) & 1u32 == parity(e & 0b00011110110100001000000u32, 32),
        ((s1 as u32) >> 5u32) & 1u32 == parity(e & 0b10101011100100000100000u32, 32),
        ((s1 as u32) >> 4u32) & 1u32 == parity(e & 0b11110001001100000010000u32, 32),
        ((s1 as u32) >> 3u32) & 1u32 == parity(e & 0b11011100011000000001000u32, 32),
        ((s1 as u32) >> 2u32) & 1u32 == parity(e & 0b01101110001100000000100u32, 32),
        ((s1 as u32) >> 1u32) & 1u32 == parity(e & 0b10010011111000000000010u32, 32),
        ((s1 as u32) >> 0u32) & 1u32 == parity(e & 0b01001001111100000000001u32, 32),
        ((s2 as u32) >> 10u32) & 1u32 == parity(spec_rotate_23(e) & 0b10100100111110000000000u32, 32),
        ((s2 as u32) >> 9u32) & 1u32 == parity(spec_rotate_23(e) & 0b11110110100001000000000u32, 32),
        ((s2 as u32) >> 8u32) & 1u32 == parity(spec_rotate_23(e) & 0b01111011010000100000000u32, 32),
        ((s2 as u32) >> 7u32) & 1u32 == parity(spec_rotate_23(e) & 0b00111101101000010000000u32, 32),
        ((s2 as u32) >> 6u32) & 1u32 == parity(spec_rotate_23(e) & 0b00011110110100001000000u32, 32),
        ((s2 as u32) >> 5u32) & 1u32 == parity(spec_rotate_23(e) & 0b10101011100100000100000u32, 32),
        ((s2 as u32) >> 4u32) & 1u32 == parity(spec_rotate_23(e) & 0b11110001001100000010000u32, 32),
        ((s2 as u32) >> 3u32) & 1u32 == parity(spec_rotate_23(e) & 0b11011100011000000001000u32, 32),
        ((s2 as u32) >> 2u32) & 1u32 == parity(spec_rotate_23(e) & 0b01101110001100000000100u32, 32),
        ((s2 as u32) >> 1u32) & 1u32 == parity(spec_rotate_23(e) & 0b10010011111000000000010u32, 32),
        ((s2 as u32) >> 0u32) & 1u32 == parity(spec_rotate_23(e) & 0b01001001111100000000001u32, 32),
    ensures
        (count(e, 32) <= 2 || (count(e, 32) == 3 && !(count(e >> 11u32, 32) == 2 && (e >> 22u32) & 1u32 == 1u32)))
            ==> syndrome_decodable(s1, s2)
            && syndrome_data((d ^ ((e >> 11u32) as u16)) as u16, s1, s2) == d && syndrome_count(s1, s2) == count(e, 32),
{
}

/// The data bits of a codeword with an error pattern `e` are those of the
/// codeword with the upper part of `e` flipped; rotation spreads over the
/// error.
proof fn lemma_error_data(d: u32, p: u32, e: u32)
    by (bit_vector)
    requires
        d < 0x1000,
        p < 0x800,
        e < 0x80_0000,
    ensures
        ((((d << 11u32) | p) ^ e) >> 11u32) as u16 == ((d as u16) ^ ((e >> 11u32) as u16)) as u16,
        spec_rotate_23(((d << 11u32) | p) ^ e) == spec_rotate_23((d << 11u32) | p) ^ spec_rotate_23(e),
{
}

/// The syndrome bits of `c ^ e`, where `c` is orthogonal to every row, are
/// those of `e`.
proof fn lemma_error_syndrome_bits(c: u32, e: u32)
    requires
        forall|i: int| 0 <= i < 11 ==> #[trigger] parity(c & parity_check()[i], 32) == 0,
    ensures
        forall|i: int|
            0 <= i < 11 ==> ((gf2_product(c ^ e, parity_check()) as u32) >> ((10 - i) as u32)) & 1u32
                == #[trigger] parity(e & parity_check()[i], 32),
{
    let rows = parity_check();
    assert forall|i: int| 0 <= i < 11 implies ((gf2_product(c ^ e, rows) as u32) >> ((10 - i) as u32)) & 1u32
        == #[trigger] parity(e & rows[i], 32) by {
        super::lemma_product_bit(c ^ e, rows, (10 - i) as nat);
        super::lemma_dot2_parity(c ^ e, rows[i]);
        super::lemma_parity_xor(c, e, rows[i], 32);
        super::lemma_dot2_parity(c, rows[i]);
        super::lemma_dot2_parity(e, rows[i]);
    }
}

/// Up to two errors are corrected, and three unless they are the top data
/// bit, one other data bit and one parity bit: decoding a codeword with
/// such an error pattern gives back its data and the number of errors.
pub proof fn lemma_corrects(data: u16, e: u32)
    requires
        data < 0x1000,
        e < 0x80_0000,
        weight(e) <= 2 || (weight(e) == 3 && !(weight(e >> 11u32) == 2 && (e >> 22u32) & 1u32 == 1u32)),
    ensures
        spec_decode(spec_encode(data) ^ e) == Some((data, weight(e) as usize)),
{
    let d = data as u32;
    let rows = parity_generator();
    let p = gf2_product(d, rows) as u32;
    super::lemma_gf2_product_bound(d, rows);
    crate::p25::bitwise::lemma_pow2_shifts();
    assert forall|j: int| 0 <= j < 11 implies #[trigger] parity(d & rows[j], 32) == (p >> ((10 - j) as u32)) & 1u32 by {
        super::lemma_product_bit(d, rows, (10 - j) as nat);
        super::lemma_dot2_parity(d, rows[j]);
    }
    lemma_codeword_checks(d, p);
    let c = spec_encode(data);
    assert(c == (d << 11u32) | p);
    let word = c ^ e;
    lemma_error_data(d, p, e);
    let h = parity_check();
    assert forall|i: int| 0 <= i < 11 implies #[trigger] parity(c & h[i], 32) == 0 && parity(spec_rotate_23(c) & h[i], 32) == 0 by {
    }
    lemma_error_syndrome_bits(c, e);
    lemma_error_syndrome_bits(spec_rotate_23(c), spec_rotate_23(e));
    let s1 = gf2_product(word, h);
    let s2 = gf2_product(spec_rotate_23(word), h);
    super::lemma_gf2_product_bound(word, h);
    super::lemma_gf2_product_bound(spec_rotate_23(word), h);
    super::lemma_count_ones(e, 32);
    super::lemma_count_ones(e >> 11u32, 32);
    lemma_error_syndromes(data, e, s1, s2);
    lemma_decode_syndromes(word);
}

/// Bit counts of the error shapes that the test suite injects: one bit,
/// one data bit with one parity bit, and three adjacent bits.
proof fn lemma_shape_counts(i: u32, j: u32, s: u32)
    by (bit_vector)
    ensures
        i < 23 ==> count(1u32 << i, 32) == 1 && (1u32 << i) < 0x80_0000,
        (i < 11 && 11 <= j < 23) ==> count((1u32 << i) | (1u32 << j), 32) == 2 && ((1u32 << i) | (1u32 << j))
            < 0x80_0000,
        s < 21 ==> count(7u32 << s, 32) == 3 && (7u32 << s) < 0x80_0000 && !(count((7u32 << s) >> 11u32, 32) == 2
            && ((7u32 << s) >> 22u32) & 1u32 == 1u32),
{
}

/// Every error shape of the test suite is corrected: a single flipped bit,
/// one flipped data bit together with one flipped parity bit, and any
/// three adjacent flipped bits.
pub proof fn lemma_corrects_test_shapes(data: u16, i: u32, j: u32, s: u32)
    requires
        data < 0x1000,
    ensures
        i < 23 ==> spec_decode(spec_encode(data) ^ (1u32 << i)) == Some((data, 1usize)),
        (i < 11 && 11 <= j < 23) ==> spec_decode(spec_encode(data) ^ ((1u32 << i) | (1u32 << j))) == Some(
            (data, 2usize),
        ),
        s < 21 ==> spec_decode(spec_encode(data) ^ (7u32 << s)) == Some((data, 3usize)),
{
    lemma_shape_counts(i, j, s);
    if i < 23 {
        super::lemma_count_ones(1u32 << i, 32);
        lemma_corrects(data, 1u32 << i);
    }
    if i < 11 && 11 <= j < 23 {
        super::lemma_count_ones((1u32 << i) | (1u32 << j), 32);
        lemma_corrects(data, (1u32 << i) | (1u32 << j));
    }
    if s < 21 {
        super::lemma_count_ones(7u32 << s, 32);
        super::lemma_count_ones((7u32 << s) >> 11u32, 32);
        lemma_corrects(data, 7u32 << s);
    }
}

} // verus!

//! Encoding and decoding of the (24, 12, 8) extended Golay code.
//!
//! Corrects up to 3 bit errors and detects 4 bit errors.
//! This is the standard (23,12) code with an additional overall parity bit.
//! Used for TDULC header words.

use vstd::prelude::*;
use super::{count, count_ones, find_close, first_close, gf2_matrix_multiply, gf2_product, parity, weight};

verus! {

/// Generator parity submatrix **A**.
pub open spec fn generator_core() -> Seq<u16> {
    seq![
        0b110001110101u16,
        0b011000111011u16,
        0b111101101000u16,
        0b011110110100u16,
        0b001111011010u16,
        0b110110011001u16,
        0b011011001101u16,
        0b001101100111u16,
        0b110111000110u16,
        0b101010010111u16,
        0b100100111110u16,
        0b100011101011u16,
    ]
}

/// Transpose of generator parity submatrix **A**^T.
pub open spec fn parity_generator() -> Seq<u32> {
    seq![
        0b101001001111u32,
        0b111101101000u32,
        0b011110110100u32,
        0b001111011010u32,
        0b000111101101u32,
        0b101010111001u32,
        0b111100010011u32,
        0b110111000110u32,
        0b011011100011u32,
        0b100100111110u32,
        0b010010011111u32,
        0b110001110101u32,
    ]
}

/// The rows of **A**^T as 16-bit values.
pub open spec fn parity_generator_u16() -> Seq<u16> {
    seq![
        0b101001001111u16,
        0b111101101000u16,
        0b011110110100u16,
        0b001111011010u16,
        0b000111101101u16,
        0b101010111001u16,
        0b111100010011u16,
        0b110111000110u16,
        0b011011100011u16,
        0b100100111110u16,
        0b010010011111u16,
        0b110001110101u16,
    ]
}

/// Standard parity-check matrix **H** = [**A**^T | **I**].
pub open spec fn parity_check() -> Seq<u32> {
    seq![
        0b101001001111_100000000000u32,
        0b111101101000_010000000000u32,
        0b011110110100_001000000000u32,
        0b001111011010_000100000000u32,
        0b000111101101_000010000000u32,
        0b101010111001_000001000000u32,
        0b111100010011_000000100000u32,
        0b110111000110_000000010000u32,
        0b011011100011_000000001000u32,
        0b100100111110_000000000100u32,
        0b010010011111_000000000010u32,
        0b110001110101_000000000001u32,
    ]
}

/// Alternative parity-check matrix **G** = [**I** | **A**]; the extended Golay code is self-dual, so it also checks parity.
pub open spec fn parity_check_alt() -> Seq<u32> {
    seq![
        0b100000000000_110001110101u32,
        0b010000000000_011000111011u32,
        0b001000000000_111101101000u32,
        0b000100000000_011110110100u32,
        0b000010000000_001111011010u32,
        0b000001000000_110110011001u32,
        0b000000100000_011011001101u32,
        0b000000010000_001101100111u32,
        0b000000001000_110111000110u32,
        0b000000000100_101010010111u32,
        0b000000000010_100100111110u32,
        0b000000000001_100011101011u32,
    ]
}

fn generator_core_rows() -> (r: [u16; 12])
    ensures
        r@ == generator_core(),
{
    let r: [u16; 12] = [
        0b110001110101,
        0b011000111011,
        0b111101101000,
        0b011110110100,
        0b001111011010,
        0b110110011001,
        0b011011001101,
        0b001101100111,
        0b110111000110,
        0b101010010111,
        0b100100111110,
        0b100011101011,
    ];
    assert(r@ =~= generator_core());
    r
}

fn parity_generator_rows() -> (r: [u32; 12])
    ensures
        r@ == parity_generator(),
{
    let r: [u32; 12] = [
        0b101001001111,
        0b111101101000,
        0b011110110100,
        0b001111011010,
        0b000111101101,
        0b101010111001,
        0b111100010011,
        0b110111000110,
        0b011011100011,
        0b100100111110,
        0b010010011111,
        0b110001110101,
    ];
    assert(r@ =~= parity_generator());
    r
}

fn parity_generator_u16_rows() -> (r: [u16; 12])
    ensures
        r@ == parity_generator_u16(),
{
    let r: [u16; 12] = [
        0b101001001111,
        0b111101101000,
        0b011110110100,
        0b001111011010,
        0b000111101101,
        0b101010111001,
        0b111100010011,
        0b110111000110,
        0b011011100011,
        0b100100111110,
        0b010010011111,
        0b110001110101,
    ];
    assert(r@ =~= parity_generator_u16());
    r
}

fn parity_check_rows() -> (r: [u32; 12])
    ensures
        r@ == parity_check(),
{
    let r: [u32; 12] = [
        0b101001001111_100000000000,
        0b111101101000_010000000000,
        0b011110110100_001000000000,
        0b001111011010_000100000000,
        0b000111101101_000010000000,
        0b101010111001_000001000000,
        0b111100010011_000000100000,
        0b110111000110_000000010000,
        0b011011100011_000000001000,
        0b100100111110_000000000100,
        0b010010011111_000000000010,
        0b110001110101_000000000001,
    ];
    assert(r@ =~= parity_check());
    r
}

fn parity_check_alt_rows() -> (r: [u32; 12])
    ensures
        r@ == parity_check_alt(),
{
    let r: [u32; 12] = [
        0b100000000000_110001110101,
        0b010000000000_011000111011,
        0b001000000000_111101101000,
        0b000100000000_011110110100,
        0b000010000000_001111011010,
        0b000001000000_110110011001,
        0b000000100000_011011001101,
        0b000000010000_001101100111,
        0b000000001000_110111000110,
        0b000000000100_101010010111,
        0b000000000010_100100111110,
        0b000000000001_100011101011,
    ];
    assert(r@ =~= parity_check_alt());
    r
}

/// The codeword for 12 data bits: `[data (12 bits) | parity (12 bits)]`.
pub open spec fn spec_encode(data: u16) -> u32 {
    ((data as u32) << 12u32) | (gf2_product(data as u32, parity_generator()) as u32)
}

/// The decoding procedure: the syndrome under **G** locates up to three
/// errors in the upper half (or one in the lower half beside two in the
/// upper); the syndrome under **H** does the same the other way round.
pub open spec fn spec_decode(word: u32) -> Option<(u16, usize)> {
    let data = (word >> 12u32) as u16;
    let syn = gf2_product(word, parity_check_alt());
    let w = weight(syn as u32);
    if w <= 3 {
        Some(((data ^ syn) as u16, w as usize))
    } else {
        match first_close(syn, parity_generator_u16(), 0) {
            Some(i) => {
                let residual = (syn ^ parity_generator_u16()[i as int]) as u16;
                Some(((data ^ residual) as u16, (weight(residual as u32) + 1) as usize))
            },
            None => {
                let syn2 = gf2_product(word, parity_check());
                let w2 = weight(syn2 as u32);
                if w2 <= 3 {
                    Some((data, w2 as usize))
                } else {
                    match first_close(syn2, generator_core(), 0) {
                        Some(i) => Some(((data ^ (1u16 << ((11 - i) as u16))) as u16, 3usize)),
                        None => None,
                    }
                }
            },
        }
    }
}

/// Encode the given 12 data bits into a 24-bit codeword.
///
/// The input must have only the 12 least significant bits set.
/// Returns `[data (12 bits) | parity (12 bits)]`.
pub fn encode(data: u16) -> (r: u32)
    requires
        data >> 12u16 == 0,
    ensures
        r == spec_encode(data),
        r >> 24u32 == 0,
{
    let rows = parity_generator_rows();
    let parity = gf2_matrix_multiply(data as u32, rows.as_slice());
    let codeword = ((data as u32) << 12) | parity as u32;
    proof {
        let d = data;
        let p = parity;
        assert(((((d as u32) << 12u32) | (p as u32)) >> 24u32) == 0) by (bit_vector)
            requires
                d >> 12u16 == 0,
        ;
    }
    codeword
}

/// Try to decode the given 24-bit word to the nearest codeword,
/// correcting up to 3 bit errors.
///
/// Returns `Some((data, error_count))` on success, `None` for
/// unrecoverable errors (4+ bits).
pub fn decode(word: u32) -> (r: Option<(u16, usize)>)
    requires
        word >> 24u32 == 0,
    ensures
        r == spec_decode(word),
{
    let data = (word >> 12) as u16;

    // Compute syndrome using alternative parity-check (self-dual property):
    // s = word * G^T, checking errors in upper 12 bits
    let alt = parity_check_alt_rows();
    let syndrome = gf2_matrix_multiply(word, alt.as_slice());
    let weight = count_ones(syndrome as u32) as usize;

    if weight <= 3 {
        return Some((data ^ syndrome, weight));
    }

    // Check single error in lower 12 bits + 0-2 errors in upper 12 bits
    let gen16 = parity_generator_u16_rows();
    match find_close(syndrome, gen16.as_slice()) {
        Some(i) => {
            let residual = syndrome ^ gen16[i];
            let weight = count_ones(residual as u32) as usize;
            return Some((data ^ residual, weight + 1));
        },
        None => {},
    }

    // Compute syndrome using standard parity-check: s = word * H^T
    // This checks errors in lower 12 bits
    let checks = parity_check_rows();
    let syndrome = gf2_matrix_multiply(word, checks.as_slice());
    let weight = count_ones(syndrome as u32) as usize;

    if weight <= 3 {
        return Some((data, weight));
    }

    // Check single error in upper 12 bits + 0-2 errors in lower 12 bits
    let core = generator_core_rows();
    match find_close(syndrome, core.as_slice()) {
        Some(i) => {
            let error = 1u16 << (11 - i) as u16;
            Some((data ^ error, 3))
        },
        None => None,
    }
}

/// Every codeword `[d | p]`, its parity bits `p` computed from the rows of
/// **A**^T, is orthogonal to every row of [**I** | **A**] (the code is
/// self-dual), and its upper 12 bits are the data.
proof fn lemma_codeword_checks(d: u32, p: u32)
    by (bit_vector)
    requires
        d < 0x1000,
        p < 0x1000,
        parity(d & 0b101001001111u32, 32) == (p >> 11u32) & 1u32,
        parity(d & 0b111101101000u32, 32) == (p >> 10u32) & 1u32,
        parity(d & 0b011110110100u32, 32) == (p >> 9u32) & 1u32,
        parity(d & 0b001111011010u32, 32) == (p >> 8u32) & 1u32,
        parity(d & 0b000111101101u32, 32) == (p >> 7u32) & 1u32,
        parity(d & 0b101010111001u32, 32) == (p >> 6u32) & 1u32,
        parity(d & 0b111100010011u32, 32) == (p >> 5u32) & 1u32,
        parity(d & 0b110111000110u32, 32) == (p >> 4u32) & 1u32,
        parity(d & 0b011011100011u32, 32) == (p >> 3u32) & 1u32,
        parity(d & 0b100100111110u32, 32) == (p >> 2u32) & 1u32,
        parity(d & 0b010010011111u32, 32) == (p >> 1u32) & 1u32,
        parity(d & 0b110001110101u32, 32) == (p >> 0u32) & 1u32,
    ensures
        parity(((d << 12u32) | p) & 0b100000000000_110001110101u32, 32) == 0,
        parity(((d << 12u32) | p) & 0b010000000000_011000111011u32, 32) == 0,
        parity(((d << 12u32) | p) & 0b001000000000_111101101000u32, 32) == 0,
        parity(((d << 12u32) | p) & 0b000100000000_011110110100u32, 32) == 0,
        parity(((d << 12u32) | p) & 0b000010000000_001111011010u32, 32) == 0,
        parity(((d << 12u32) | p) & 0b000001000000_110110011001u32, 32) == 0,
        parity(((d << 12u32) | p) & 0b000000100000_011011001101u32, 32) == 0,
        parity(((d << 12u32) | p) & 0b000000010000_001101100111u32, 32) == 0,
        parity(((d << 12u32) | p) & 0b000000001000_110111000110u32, 32) == 0,
        parity(((d << 12u32) | p) & 0b000000000100_101010010111u32, 32) == 0,
        parity(((d << 12u32) | p) & 0b000000000010_100100111110u32, 32) == 0,
        parity(((d << 12u32) | p) & 0b000000000001_100011101011u32, 32) == 0,
        parity(((d << 12u32) | p) & 0b101001001111_100000000000u32, 32) == 0,
        parity(((d << 12u32) | p) & 0b111101101000_010000000000u32, 32) == 0,
        parity(((d << 12u32) | p) & 0b011110110100_001000000000u32, 32) == 0,
        parity(((d << 12u32) | p) & 0b001111011010_000100000000u32, 32) == 0,
        parity(((d << 12u32) | p) & 0b000111101101_000010000000u32, 32) == 0,
        parity(((d << 12u32) | p) & 0b101010111001_000001000000u32, 32) == 0,
        parity(((d << 12u32) | p) & 0b111100010011_000000100000u32, 32) == 0,
        parity(((d << 12u32) | p) & 0b110111000110_000000010000u32, 32) == 0,
        parity(((d << 12u32) | p) & 0b011011100011_000000001000u32, 32) == 0,
        parity(((d << 12u32) | p) & 0b100100111110_000000000100u32, 32) == 0,
        parity(((d << 12u32) | p) & 0b010010011111_000000000010u32, 32) == 0,
        parity(((d << 12u32) | p) & 0b110001110101_000000000001u32, 32) == 0,
        ((d << 12u32) | p) >> 12u32 == d,
        ((d as u16) ^ 0u16) == d as u16,
        ((d << 12u32) | p) >> 24u32 == 0,
{
}

/// Decoding a codeword gives back its data with no corrections.
pub proof fn lemma_roundtrip(data: u16)
    requires
        data < 0x1000,
    ensures
        spec_decode(spec_encode(data)) == Some((data, 0usize)),
{
    let d = data as u32;
    let rows = parity_generator();
    let p16 = gf2_product(d, rows);
    let p = p16 as u32;
    super::lemma_gf2_product_bound(d, rows);
    crate::p25::bitwise::lemma_pow2_shifts();
    assert forall|j: int| 0 <= j < 12 implies #[trigger] super::parity(d & rows[j], 32) == (p >> ((11 - j) as u32)) & 1u32 by {
        super::lemma_product_bit(d, rows, (11 - j) as nat);
        super::lemma_dot2_parity(d, rows[j]);
    }
    lemma_codeword_checks(d, p);
    let word = spec_encode(data);
    assert(word == (d << 12u32) | p);
    let checks = parity_check_alt();
    assert forall|i: int| 0 <= i < 12 implies super::dot2(word, #[trigger] checks[i]) == 0 by {
        super::lemma_dot2_parity(word, checks[i]);
    }
    super::lemma_product_zero(word, checks);
    super::lemma_ones_zero(32);
}

/// Row `i` of **A**^T as a 16-bit value, 0 past the last row.
pub open spec fn parity_generator_row(i: u32) -> u16 {
    if i == 0 {
        0b101001001111u16
    } else if i == 1 {
        0b111101101000u16
    } else if i == 2 {
        0b011110110100u16
    } else if i == 3 {
        0b001111011010u16
    } else if i == 4 {
        0b000111101101u16
    } else if i == 5 {
        0b101010111001u16
    } else if i == 6 {
        0b111100010011u16
    } else if i == 7 {
        0b110111000110u16
    } else if i == 8 {
        0b011011100011u16
    } else if i == 9 {
        0b100100111110u16
    } else if i == 10 {
        0b010010011111u16
    } else if i == 11 {
        0b110001110101u16
    } else {
        0
    }
}

/// The first row of **A**^T within two bits of `s`, or 12 if none is.
pub open spec fn close_parity_row(s: u16) -> u32 {
    if count((s ^ 0b101001001111u16) as u32, 32) <= 2 {
        0
    } else if count((s ^ 0b111101101000u16) as u32, 32) <= 2 {
        1
    } else if count((s ^ 0b011110110100u16) as u32, 32) <= 2 {
        2
    } else if count((s ^ 0b001111011010u16) as u32, 32) <= 2 {
        3
    } else if count((s ^ 0b000111101101u16) as u32, 32) <= 2 {
        4
    } else if count((s ^ 0b101010111001u16) as u32, 32) <= 2 {
        5
    } else if count((s ^ 0b111100010011u16) as u32, 32) <= 2 {
        6
    } else if count((s ^ 0b110111000110u16) as u32, 32) <= 2 {
        7
    } else if count((s ^ 0b011011100011u16) as u32, 32) <= 2 {
        8
    } else if count((s ^ 0b100100111110u16) as u32, 32) <= 2 {
        9
    } else if count((s ^ 0b010010011111u16) as u32, 32) <= 2 {
        10
    } else if count((s ^ 0b110001110101u16) as u32, 32) <= 2 {
        11
    } else {
        12
    }
}

/// The first row of **A** within two bits of `s`, or 12 if none is.
pub open spec fn close_core_row(s: u16) -> u32 {
    if count((s ^ 0b110001110101u16) as u32, 32) <= 2 {
        0
    } else if count((s ^ 0b011000111011u16) as u32, 32) <= 2 {
        1
    } else if count((s ^ 0b111101101000u16) as u32, 32) <= 2 {
        2
    } else if count((s ^ 0b011110110100u16) as u32, 32) <= 2 {
        3
    } else if count((s ^ 0b001111011010u16) as u32, 32) <= 2 {
        4
    } else if count((s ^ 0b110110011001u16) as u32, 32) <= 2 {
        5
    } else if count((s ^ 0b011011001101u16) as u32, 32) <= 2 {
        6
    } else if count((s ^ 0b001101100111u16) as u32, 32) <= 2 {
        7
    } else if count((s ^ 0b110111000110u16) as u32, 32) <= 2 {
        8
    } else if count((s ^ 0b101010010111u16) as u32, 32) <= 2 {
        9
    } else if count((s ^ 0b100100111110u16) as u32, 32) <= 2 {
        10
    } else if count((s ^ 0b100011101011u16) as u32, 32) <= 2 {
        11
    } else {
        12
    }
}

/// Whether the decoding procedure corrects a word with syndromes `s1`
/// (under **G**) and `s2` (under **H**).
pub open spec fn syndrome_decodable(s1: u16, s2: u16) -> bool {
    count(s1 as u32, 32) <= 3 || close_parity_row(s1) < 12 || count(s2 as u32, 32) <= 3 || close_core_row(s2) < 12
}

/// The data that the decoding procedure gives for received data bits
/// `data` and syndromes `s1`, `s2`.
pub open spec fn syndrome_data(data: u16, s1: u16, s2: u16) -> u16 {
    if count(s1 as u32, 32) <= 3 {
        data ^ s1
    } else if close_parity_row(s1) < 12 {
        data ^ (s1 ^ parity_generator_row(close_parity_row(s1)))
    } else if count(s2 as u32, 32) <= 3 {
        data
    } else {
        data ^ (1u16 << ((11 - close_core_row(s2)) as u16))
    }
}

/// The correction count that the decoding procedure gives for syndromes
/// `s1`, `s2`.
pub open spec fn syndrome_count(s1: u16, s2: u16) -> u32 {
    if count(s1 as u32, 32) <= 3 {
        count(s1 as u32, 32)
    } else if close_parity_row(s1) < 12 {
        (count((s1 ^ parity_generator_row(close_parity_row(s1))) as u32, 32) + 1) as u32
    } else if count(s2 as u32, 32) <= 3 {
        count(s2 as u32, 32)
    } else {
        3
    }
}

/// The first close table entry, read off the written-out search.
proof fn lemma_first_close_rows(s: u16)
    ensures
        first_close(s, parity_generator_u16(), 0) == (if close_parity_row(s) < 12 {
            Some(close_parity_row(s) as nat)
        } else {
            None::<nat>
        }),
        close_parity_row(s) < 12 ==> parity_generator_u16()[close_parity_row(s) as int] == parity_generator_row(
            close_parity_row(s),
        ),
        first_close(s, generator_core(), 0) == (if close_core_row(s) < 12 {
            Some(close_core_row(s) as nat)
        } else {
            None::<nat>
        }),
{
    let t = parity_generator_u16();
    let c = generator_core();
    assert(t[0] == 0b101001001111u16 && c[0] == 0b110001110101u16);
    super::lemma_count_ones((s ^ t[0]) as u32, 32);
    super::lemma_count_ones((s ^ c[0]) as u32, 32);
    assert(t[1] == 0b111101101000u16 && c[1] == 0b011000111011u16);
    super::lemma_count_ones((s ^ t[1]) as u32, 32);
    super::lemma_count_ones((s ^ c[1]) as u32, 32);
    assert(t[2] == 0b011110110100u16 && c[2] == 0b111101101000u16);
    super::lemma_count_ones((s ^ t[2]) as u32, 32);
    super::lemma_count_ones((s ^ c[2]) as u32, 32);
    assert(t[3] == 0b001111011010u16 && c[3] == 0b011110110100u16);
    super::lemma_count_ones((s ^ t[3]) as u32, 32);
    super::lemma_count_ones((s ^ c[3]) as u32, 32);
    assert(t[4] == 0b000111101101u16 && c[4] == 0b001111011010u16);
    super::lemma_count_ones((s ^ t[4]) as u32, 32);
    super::lemma_count_ones((s ^ c[4]) as u32, 32);
    assert(t[5] == 0b101010111001u16 && c[5] == 0b110110011001u16);
    super::lemma_count_ones((s ^ t[5]) as u32, 32);
    super::lemma_count_ones((s ^ c[5]) as u32, 32);
    assert(t[6] == 0b111100010011u16 && c[6] == 0b011011001101u16);
    super::lemma_count_ones((s ^ t[6]) as u32, 32);
    super::lemma_count_ones((s ^ c[6]) as u32, 32);
    assert(t[7] == 0b110111000110u16 && c[7] == 0b001101100111u16);
    super::lemma_count_ones((s ^ t[7]) as u32, 32);
    super::lemma_count_ones((s ^ c[7]) as u32, 32);
    assert(t[8] == 0b011011100011u16 && c[8] == 0b110111000110u16);
    super::lemma_count_ones((s ^ t[8]) as u32, 32);
    super::lemma_count_ones((s ^ c[8]) as u32, 32);
    assert(t[9] == 0b100100111110u16 && c[9] == 0b101010010111u16);
    super::lemma_count_ones((s ^ t[9]) as u32, 32);
    super::lemma_count_ones((s ^ c[9]) as u32, 32);
    assert(t[10] == 0b010010011111u16 && c[10] == 0b100100111110u16);
    super::lemma_count_ones((s ^ t[10]) as u32, 32);
    super::lemma_count_ones((s ^ c[10]) as u32, 32);
    assert(t[11] == 0b110001110101u16 && c[11] == 0b100011101011u16);
    super::lemma_count_ones((s ^ t[11]) as u32, 32);
    super::lemma_count_ones((s ^ c[11]) as u32, 32);
    assert(first_close(s, t, 12) is None && first_close(s, c, 12) is None);
    assert(first_close(s, t, 11) == if weight((s ^ t[11]) as u32) <= 2 { Some(11nat) } else { first_close(s, t, 12) });
    assert(first_close(s, c, 11) == if weight((s ^ c[11]) as u32) <= 2 { Some(11nat) } else { first_close(s, c, 12) });
    assert(first_close(s, t, 10) == if weight((s ^ t[10]) as u32) <= 2 { Some(10nat) } else { first_close(s, t, 11) });
    assert(first_close(s, c, 10) == if weight((s ^ c[10]) as u32) <= 2 { Some(10nat) } else { first_close(s, c, 11) });
    assert(first_close(s, t, 9) == if weight((s ^ t[9]) as u32) <= 2 { Some(9nat) } else { first_close(s, t, 10) });
    assert(first_close(s, c, 9) == if weight((s ^ c[9]) as u32) <= 2 { Some(9nat) } else { first_close(s, c, 10) });
    assert(first_close(s, t, 8) == if weight((s ^ t[8]) as u32) <= 2 { Some(8nat) } else { first_close(s, t, 9) });
    assert(first_close(s, c, 8) == if weight((s ^ c[8]) as u32) <= 2 { Some(8nat) } else { first_close(s, c, 9) });
    assert(first_close(s, t, 7) == if weight((s ^ t[7]) as u32) <= 2 { Some(7nat) } else { first_close(s, t, 8) });
    assert(first_close(s, c, 7) == if weight((s ^ c[7]) as u32) <= 2 { Some(7nat) } else { first_close(s, c, 8) });
    assert(first_close(s, t, 6) == if weight((s ^ t[6]) as u32) <= 2 { Some(6nat) } else { first_close(s, t, 7) });
    assert(first_close(s, c, 6) == if weight((s ^ c[6]) as u32) <= 2 { Some(6nat) } else { first_close(s, c, 7) });
    assert(first_close(s, t, 5) == if weight((s ^ t[5]) as u32) <= 2 { Some(5nat) } else { first_close(s, t, 6) });
    assert(first_close(s, c, 5) == if weight((s ^ c[5]) as u32) <= 2 { Some(5nat) } else { first_close(s, c, 6) });
    assert(first_close(s, t, 4) == if weight((s ^ t[4]) as u32) <= 2 { Some(4nat) } else { first_close(s, t, 5) });
    assert(first_close(s, c, 4) == if weight((s ^ c[4]) as u32) <= 2 { Some(4nat) } else { first_close(s, c, 5) });
    assert(first_close(s, t, 3) == if weight((s ^ t[3]) as u32) <= 2 { Some(3nat) } else { first_close(s, t, 4) });
    assert(first_close(s, c, 3) == if weight((s ^ c[3]) as u32) <= 2 { Some(3nat) } else { first_close(s, c, 4) });
    assert(first_close(s, t, 2) == if weight((s ^ t[2]) as u32) <= 2 { Some(2nat) } else { first_close(s, t, 3) });
    assert(first_close(s, c, 2) == if weight((s ^ c[2]) as u32) <= 2 { Some(2nat) } else { first_close(s, c, 3) });
    assert(first_close(s, t, 1) == if weight((s ^ t[1]) as u32) <= 2 { Some(1nat) } else { first_close(s, t, 2) });
    assert(first_close(s, c, 1) == if weight((s ^ c[1]) as u32) <= 2 { Some(1nat) } else { first_close(s, c, 2) });
    assert(first_close(s, t, 0) == if weight((s ^ t[0]) as u32) <= 2 { Some(0nat) } else { first_close(s, t, 1) });
    assert(first_close(s, c, 0) == if weight((s ^ c[0]) as u32) <= 2 { Some(0nat) } else { first_close(s, c, 1) });
}

/// The decoding procedure, written over the two syndromes of the word.
proof fn lemma_decode_syndromes(word: u32)
    ensures
        ({
            let s1 = gf2_product(word, parity_check_alt());
            let s2 = gf2_product(word, parity_check());
            let data = (word >> 12u32) as u16;
            spec_decode(word) == if syndrome_decodable(s1, s2) {
                Some((syndrome_data(data, s1, s2), syndrome_count(s1, s2) as usize))
            } else {
                None
            }
        }),
{
    let s1 = gf2_product(word, parity_check_alt());
    let s2 = gf2_product(word, parity_check());
    lemma_first_close_rows(s1);
    lemma_first_close_rows(s2);
    super::lemma_count_ones(s1 as u32, 32);
    super::lemma_count_ones(s2 as u32, 32);
    if close_parity_row(s1) < 12 {
        super::lemma_count_ones((s1 ^ parity_generator_row(close_parity_row(s1))) as u32, 32);
    }
}

/// The decoding procedure on the syndromes of an error pattern `e`: up to
/// three errors are corrected exactly, and four are detected.
#[verifier::rlimit(100)]
proof fn lemma_error_syndromes(d: u16, e: u32, s1: u16, s2: u16)
    by (bit_vector)
    requires
        d < 0x1000,
        e < 0x100_0000,
        s1 < 0x1000,
        s2 < 0x1000,
        ((s1 as u32) >> 11u32) & 1u32 == parity(e & 0b100000000000_110001110101u32, 32),
        ((s1 as u32) >> 10u32) & 1u32 == parity(e & 0b010000000000_011000111011u32, 32),
        ((s1 as u32) >> 9u32) & 1u32 == parity(e & 0b001000000000_111101101000u32, 32),
        ((s1 as u32) >> 8u32) & 1u32 == parity(e & 0b000100000000_011110110100u32, 32),
        ((s1 as u32) >> 7u32) & 1u32 == parity(e & 0b000010000000_001111011010u32, 32),
        ((s1 as u32) >> 6u32) & 1u32 == parity(e & 0b000001000000_110110011001u32, 32),
        ((s1 as u32) >> 5u32) & 1u32 == parity(e & 0b000000100000_011011001101u32, 32),
        ((s1 as u32) >> 4u32) & 1u32 == parity(e & 0b000000010000_001101100111u32, 32),
        ((s1 as u32) >> 3u32) & 1u32 == parity(e & 0b000000001000_110111000110u32, 32),
        ((s1 as u32) >> 2u32) & 1u32 == parity(e & 0b000000000100_101010010111u32, 32),
        ((s1 as u32) >> 1u32) & 1u32 == parity(e & 0b000000000010_100100111110u32, 32),
        ((s1 as u32) >> 0u32) & 1u32 == parity(e & 0b000000000001_100011101011u32, 32),
        ((s2 as u32) >> 11u32) & 1u32 == parity(e & 0b101001001111_100000000000u32, 32),
        ((s2 as u32) >> 10u32) & 1u32 == parity(e & 0b111101101000_010000000000u32, 32),
        ((s2 as u32) >> 9u32) & 1u32 == parity(e & 0b011110110100_001000000000u32, 32),
        ((s2 as u32) >> 8u32) & 1u32 == parity(e & 0b001111011010_000100000000u32, 32),
        ((s2 as u32) >> 7u32) & 1u32 == parity(e & 0b000111101101_000010000000u32, 32),
        ((s2 as u32) >> 6u32) & 1u32 == parity(e & 0b101010111001_000001000000u32, 32),
        ((s2 as u32) >> 5u32) & 1u32 == parity(e & 0b111100010011_000000100000u32, 32),
        ((s2 as u32) >> 4u32) & 1u32 == parity(e & 0b110111000110_000000010000u32, 32),
        ((s2 as u32) >> 3u32) & 1u32 == parity(e & 0b011011100011_000000001000u32, 32),
        ((s2 as u32) >> 2u32) & 1u32 == parity(e & 0b100100111110_000000000100u32, 32),
        ((s2 as u32) >> 1u32) & 1u32 == parity(e & 0b010010011111_000000000010u32, 32),
        ((s2 as u32) >> 0u32) & 1u32 == parity(e & 0b110001110101_000000000001u32, 32),
    ensures
        count(e, 32) <= 3 ==> syndrome_decodable(s1, s2) && syndrome_data((d ^ ((e >> 12u32) as u16)) as u16, s1, s2)
            == d && syndrome_count(s1, s2) == count(e, 32),
        count(e, 32) == 4 ==> !syndrome_decodable(s1, s2),
{
}

/// The data bits of a codeword with an error pattern `e` are those of the
/// codeword with the upper half of `e` flipped.
proof fn lemma_error_data(d: u32, p: u32, e: u32)
    by (bit_vector)
    requires
        d < 0x1000,
        p < 0x1000,
        e < 0x100_0000,
    ensures
        ((((d << 12u32) | p) ^ e) >> 12u32) as u16 == ((d as u16) ^ ((e >> 12u32) as u16)) as u16,
        ((d << 12u32) | p) ^ e < 0x100_0000,
{
}

/// The syndromes of a codeword with an error pattern `e` are those of `e`.
proof fn lemma_error_syndrome_bits(c: u32, e: u32, rows: Seq<u32>)
    requires
        rows.len() == 12,
        forall|i: int| 0 <= i < 12 ==> #[trigger] parity(c & rows[i], 32) == 0,
    ensures
        forall|i: int|
            0 <= i < 12 ==> ((gf2_product(c ^ e, rows) as u32) >> ((11 - i) as u32)) & 1u32 == #[trigger] parity(
                e & rows[i],
                32,
            ),
{
    assert forall|i: int| 0 <= i < 12 implies ((gf2_product(c ^ e, rows) as u32) >> ((11 - i) as u32)) & 1u32
        == #[trigger] parity(e & rows[i], 32) by {
        super::lemma_product_bit(c ^ e, rows, (11 - i) as nat);
        super::lemma_dot2_parity(c ^ e, rows[i]);
        super::lemma_parity_xor(c, e, rows[i], 32);
        super::lemma_dot2_parity(c, rows[i]);
        super::lemma_dot2_parity(e, rows[i]);
    }
}

/// Up to three errors are corrected: decoding a codeword with any error
/// pattern of at most three bits gives back its data and the number of
/// errors.
pub proof fn lemma_corrects_three(data: u16, e: u32)
    requires
        data < 0x1000,
        e < 0x100_0000,
        weight(e) <= 3,
    ensures
        spec_decode(spec_encode(data) ^ e) == Some((data, weight(e) as usize)),
{
    lemma_error_decode(data, e);
}

/// Four errors are detected: decoding a codeword with any error pattern of
/// four bits gives no data.
pub proof fn lemma_detects_four(data: u16, e: u32)
    requires
        data < 0x1000,
        e < 0x100_0000,
        weight(e) == 4,
    ensures
        spec_decode(spec_encode(data) ^ e) is None,
{
    lemma_error_decode(data, e);
}

/// Decoding a codeword with an error pattern, by the number of errors.
proof fn lemma_error_decode(data: u16, e: u32)
    requires
        data < 0x1000,
        e < 0x100_0000,
    ensures
        weight(e) <= 3 ==> spec_decode(spec_encode(data) ^ e) == Some((data, weight(e) as usize)),
        weight(e) == 4 ==> spec_decode(spec_encode(data) ^ e) is None,
{
    let d = data as u32;
    let rows = parity_generator();
    let p = gf2_product(d, rows) as u32;
    super::lemma_gf2_product_bound(d, rows);
    crate::p25::bitwise::lemma_pow2_shifts();
    assert forall|j: int| 0 <= j < 12 implies #[trigger] parity(d & rows[j], 32) == (p >> ((11 - j) as u32)) & 1u32 by {
        super::lemma_product_bit(d, rows, (11 - j) as nat);
        super::lemma_dot2_parity(d, rows[j]);
    }
    lemma_codeword_checks(d, p);
    let c = spec_encode(data);
    assert(c == (d << 12u32) | p);
    let word = c ^ e;
    lemma_error_data(d, p, e);
    let alt = parity_check_alt();
    let h = parity_check();
    assert forall|i: int| 0 <= i < 12 implies #[trigger] parity(c & alt[i], 32) == 0 && parity(c & h[i], 32) == 0 by {
    }
    lemma_error_syndrome_bits(c, e, alt);
    lemma_error_syndrome_bits(c, e, h);
    let s1 = gf2_product(word, alt);
    let s2 = gf2_product(word, h);
    super::lemma_gf2_product_bound(word, alt);
    super::lemma_gf2_product_bound(word, h);
    lemma_error_syndromes(data, e, s1, s2);
    lemma_decode_syndromes(word);
    super::lemma_count_ones(e, 32);
}

} // verus!

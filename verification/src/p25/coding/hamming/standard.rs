//! Encoding and decoding of the (15, 11, 3) standard Hamming code.
//!
//! Corrects up to 1 bit error. Used for IMBE voice frame chunks u_4 through u_6 (lower-priority voice data).

use vstd::prelude::*;
use super::super::golay::{
    dot2, gf2_product, lemma_dot2_parity, lemma_gf2_product_bound, lemma_product_bit, lemma_product_zero, parity,
};
use super::syndrome;

verus! {

/// Generator matrix (parity submatrix), without the identity part: each row computes one parity bit from the data bits.
pub open spec fn generator() -> Seq<u32> {
    seq![
        0b11111110000u32,
        0b11110001110u32,
        0b11001101101u32,
        0b10101011011u32,
    ]
}

/// Parity-check matrix **H** = [**A**^T | **I**], giving the 4-bit syndrome s = word * **H**^T.
pub open spec fn parity_check() -> Seq<u32> {
    seq![
        0b111111100001000u32,
        0b111100011100100u32,
        0b110011011010010u32,
        0b101010110110001u32,
    ]
}

/// Maps 4-bit syndrome values to single-bit error locations; a zero entry marks a syndrome that no single-bit error produces.
pub open spec fn locations() -> Seq<u16> {
    seq![
        0u16,
        0b0000000000000001u16,
        0b0000000000000010u16,
        0b0000000000010000u16,
        0b0000000000000100u16,
        0b0000000000100000u16,
        0b0000000001000000u16,
        0b0000000010000000u16,
        0b0000000000001000u16,
        0b0000000100000000u16,
        0b0000001000000000u16,
        0b0000010000000000u16,
        0b0000100000000000u16,
        0b0001000000000000u16,
        0b0010000000000000u16,
        0b0100000000000000u16,
    ]
}

fn generator_rows() -> (r: [u32; 4])
    ensures
        r@ == generator(),
{
    let r: [u32; 4] = [
        0b11111110000,
        0b11110001110,
        0b11001101101,
        0b10101011011,
    ];
    assert(r@ =~= generator());
    r
}

fn parity_check_rows() -> (r: [u32; 4])
    ensures
        r@ == parity_check(),
{
    let r: [u32; 4] = [
        0b111111100001000,
        0b111100011100100,
        0b110011011010010,
        0b101010110110001,
    ];
    assert(r@ =~= parity_check());
    r
}

/// Maps 4-bit syndrome values to single-bit error locations.
///
/// A zero entry means the syndrome corresponds to a multi-bit error
/// that cannot be corrected.
pub fn location_table() -> (r: [u16; 16])
    ensures
        r@ == locations(),
{
    let r: [u16; 16] = [
        0,
        0b0000000000000001,
        0b0000000000000010,
        0b0000000000010000,
        0b0000000000000100,
        0b0000000000100000,
        0b0000000001000000,
        0b0000000010000000,
        0b0000000000001000,
        0b0000000100000000,
        0b0000001000000000,
        0b0000010000000000,
        0b0000100000000000,
        0b0001000000000000,
        0b0010000000000000,
        0b0100000000000000,
    ];
    assert(r@ =~= locations());
    r
}

/// The codeword for the data bits: `[data | parity (4 bits)]`.
pub open spec fn spec_encode(data: u16) -> u16 {
    (((data as u16) << 4u16) | gf2_product(data as u32, generator())) as u16
}

/// Syndrome decoding: a zero syndrome means no error; otherwise the
/// syndrome table names the bit to flip, or marks the word uncorrectable.
pub open spec fn spec_decode(word: u16) -> Option<(u16, usize)> {
    let s = gf2_product(word as u32, parity_check());
    if s == 0 {
        Some(((word >> 4u16), 0usize))
    } else {
        let loc = locations()[s as int];
        if loc == 0 {
            None
        } else {
            Some((((word ^ loc) >> 4u16), 1usize))
        }
    }
}

/// A decoded 15-bit word yields 11 data bits and at most one correction.
pub proof fn lemma_decode_bounds(word: u16)
    requires
        word >> 15u16 == 0,
    ensures
        spec_decode(word) matches Some((d, n)) ==> d < 0x800 && n <= 1,
{
    crate::p25::bitwise::lemma_mask_u16(word);
    crate::p25::bitwise::lemma_xor_bound(0, 0, word, 0);
    assert(word < 0x8000) by {
        crate::p25::bitwise::lemma_mask_u32(word as u32);
        crate::p25::bitwise::lemma_xor_bound(word as u32, 0, 0, 0);
    }
    let s = gf2_product(word as u32, parity_check());
    lemma_gf2_product_bound(word as u32, parity_check());
    crate::p25::bitwise::lemma_pow2_shifts();
    assert(forall|k: int| 0 <= k < 16 ==> #[trigger] locations()[k] < 0x8000);
    if s != 0 {
        let loc = locations()[s as int];
        crate::p25::bitwise::lemma_xor_bound(0, 0, word, loc);
        crate::p25::bitwise::lemma_xor_bound(0, 0, (word ^ loc) as u16, 0);
    }
}

/// Encode the given 11 data bits into a 15-bit codeword.
///
/// The input must have only the 11 least significant bits set.
/// Returns `[data (11 bits) | parity (4 bits)]`.
pub fn encode(data: u16) -> (r: u16)
    requires
        data >> 11u16 == 0,
    ensures
        r == spec_encode(data),
{
    let rows = generator_rows();
    let parity = super::super::golay::gf2_matrix_multiply(data as u32, rows.as_slice());
    proof {
        lemma_gf2_product_bound(data as u32, generator());
        crate::p25::bitwise::lemma_pow2_shifts();
        assert(parity < 16);
    }
    (data << 4) | parity
}

/// Try to decode the given 15-bit word to the nearest codeword,
/// correcting up to 1 bit error.
///
/// Returns `Some((data, error_count))` on success, where `data` is
/// the 11 recovered data bits and `error_count` is 0 or 1. Returns
/// `None` if the syndrome maps to an uncorrectable error pattern.
pub fn decode(word: u16) -> (r: Option<(u16, usize)>)
    requires
        word >> 15u16 == 0,
    ensures
        r == spec_decode(word),
{
    let checks = parity_check_rows();
    let s = syndrome(word as u32, checks.as_slice());
    if s == 0 {
        return Some((word >> 4, 0));
    }
    let table = location_table();
    let location = table[s];
    if location == 0 {
        None
    } else {
        Some(((word ^ location) >> 4, 1))
    }
}


/// The codeword of `data` with parity bits `p`.
pub open spec fn code_word(data: u16, p: u16) -> u16 {
    ((data << 4u16) | p) as u16
}

/// The error location of syndrome `s`, the table written out.
pub open spec fn location_of(s: u16) -> u16 {
    if s == 0 {
        0u16
    } else if s == 1 {
        0b0000000000000001u16
    } else if s == 2 {
        0b0000000000000010u16
    } else if s == 3 {
        0b0000000000010000u16
    } else if s == 4 {
        0b0000000000000100u16
    } else if s == 5 {
        0b0000000000100000u16
    } else if s == 6 {
        0b0000000001000000u16
    } else if s == 7 {
        0b0000000010000000u16
    } else if s == 8 {
        0b0000000000001000u16
    } else if s == 9 {
        0b0000000100000000u16
    } else if s == 10 {
        0b0000001000000000u16
    } else if s == 11 {
        0b0000010000000000u16
    } else if s == 12 {
        0b0000100000000000u16
    } else if s == 13 {
        0b0001000000000000u16
    } else if s == 14 {
        0b0010000000000000u16
    } else {
        0b0100000000000000u16
    }
}

/// The table entry of every syndrome is its written-out location.
proof fn lemma_location_of(s: u16)
    requires
        s < 16,
    ensures
        locations()[s as int] == location_of(s),
{
    assert(s == 0 || s == 1 || s == 2 || s == 3 || s == 4 || s == 5 || s == 6 || s == 7 || s == 8 || s == 9 || s == 10 || s == 11 || s == 12 || s == 13 || s == 14 || s == 15);
}

/// The codeword `[data | p]`, its parity bits `p` computed from the
/// generator rows, is orthogonal to every parity-check row and holds the
/// data above its parity bits; with bit `k` flipped its syndrome `s` names
/// bit `k` in the location table.
proof fn lemma_code_bits(data: u16, p: u16, k: u16, s: u16)
    by (bit_vector)
    requires
        data < 0x800,
        p < 16,
        parity(data as u32 & 0b11111110000u32, 32) == ((p as u32) >> 3u32) & 1u32,
        parity(data as u32 & 0b11110001110u32, 32) == ((p as u32) >> 2u32) & 1u32,
        parity(data as u32 & 0b11001101101u32, 32) == ((p as u32) >> 1u32) & 1u32,
        parity(data as u32 & 0b10101011011u32, 32) == ((p as u32) >> 0u32) & 1u32,
    ensures
        parity(code_word(data, p) as u32 & 0b111111100001000u32, 32) == 0,
        parity(code_word(data, p) as u32 & 0b111100011100100u32, 32) == 0,
        parity(code_word(data, p) as u32 & 0b110011011010010u32, 32) == 0,
        parity(code_word(data, p) as u32 & 0b101010110110001u32, 32) == 0,
        code_word(data, p) >> 4u16 == data,
        (k < 15 && s < 16 && ((s as u32) >> 3u32) & 1u32 == parity((code_word(data, p) ^ (1u16 << k)) as u32 & 0b111111100001000u32, 32) && ((s as u32) >> 2u32) & 1u32 == parity((code_word(data, p) ^ (1u16 << k)) as u32 & 0b111100011100100u32, 32) && ((s as u32) >> 1u32) & 1u32 == parity((code_word(data, p) ^ (1u16 << k)) as u32 & 0b110011011010010u32, 32) && ((s as u32) >> 0u32) & 1u32 == parity((code_word(data, p) ^ (1u16 << k)) as u32 & 0b101010110110001u32, 32)) ==> (s != 0
            && location_of(s) != 0 && location_of(s) == (1u16 << k) && ((code_word(data, p) ^ (1u16 << k)) ^ location_of(s)) >> 4u16
            == data),
{
}

/// The parity bits of `data` and the syndrome of a word, read bit by bit.
proof fn lemma_products(data: u16, word: u16)
    ensures
        gf2_product(data as u32, generator()) < 16,
        gf2_product(word as u32, parity_check()) < 16,
        forall|j: int|
            0 <= j < 4 ==> #[trigger] parity(data as u32 & generator()[j], 32) == ((gf2_product(
                data as u32,
                generator(),
            ) as u32) >> ((3 - j) as u32)) & 1u32,
        forall|i: int|
            0 <= i < 4 ==> #[trigger] parity(word as u32 & parity_check()[i], 32) == ((gf2_product(
                word as u32,
                parity_check(),
            ) as u32) >> ((3 - i) as u32)) & 1u32,
        (forall|i: int| 0 <= i < 4 ==> #[trigger] parity(word as u32 & parity_check()[i], 32) == 0)
            ==> gf2_product(word as u32, parity_check()) == 0,
{
    let gen = generator();
    let check = parity_check();
    lemma_gf2_product_bound(data as u32, gen);
    lemma_gf2_product_bound(word as u32, check);
    crate::p25::bitwise::lemma_pow2_shifts();
    let p = gf2_product(data as u32, gen);
    let s = gf2_product(word as u32, check);
    assert forall|j: int| 0 <= j < 4 implies #[trigger] parity(data as u32 & gen[j], 32) == ((p as u32) >> ((3 - j) as u32)) & 1u32 by {
        lemma_product_bit(data as u32, gen, (3 - j) as nat);
        lemma_dot2_parity(data as u32, gen[j]);
    }
    assert forall|i: int| 0 <= i < 4 implies #[trigger] parity(word as u32 & check[i], 32) == ((s as u32) >> ((3 - i) as u32)) & 1u32 by {
        lemma_product_bit(word as u32, check, (3 - i) as nat);
        lemma_dot2_parity(word as u32, check[i]);
    }
    if forall|i: int| 0 <= i < 4 ==> #[trigger] parity(word as u32 & check[i], 32) == 0 {
        assert forall|i: int| 0 <= i < 4 implies dot2(word as u32, #[trigger] check[i]) == 0 by {
            lemma_dot2_parity(word as u32, check[i]);
        }
        lemma_product_zero(word as u32, check);
    }
}

/// Decoding a codeword gives back its data with no corrections.
pub proof fn lemma_roundtrip(data: u16)
    requires
        data < 0x800,
    ensures
        spec_decode(spec_encode(data)) == Some((data, 0usize)),
{
    let d = data;
    lemma_products(d, 0);
    let p = gf2_product(d as u32, generator());
    let word = spec_encode(data);
    assert(word == code_word(d, p));
    lemma_code_bits(d, p, 0, 0);
    lemma_products(d, word);
}

/// A single flipped bit is corrected: decoding a codeword with any one of
/// its 15 bits flipped gives back the data with one correction.
pub proof fn lemma_single_error(data: u16, k: u16)
    requires
        data < 0x800,
        k < 15,
    ensures
        spec_decode((spec_encode(data) ^ (1u16 << k)) as u16) == Some((data, 1usize)),
{
    let d = data;
    lemma_products(d, 0);
    let p = gf2_product(d as u32, generator());
    let word = (spec_encode(data) ^ (1u16 << k)) as u16;
    assert(spec_encode(data) == code_word(d, p));
    lemma_products(d, word);
    let s = gf2_product(word as u32, parity_check());
    lemma_code_bits(d, p, k, s);
    lemma_location_of(s);
}


/// With two bits of a codeword flipped, the syndrome `s` is not zero;
/// every non-zero syndrome names a location.
proof fn lemma_two_bits(data: u16, p: u16, i: u16, j: u16, s: u16)
    by (bit_vector)
    requires
        data < 0x800,
        p < 16,
        parity(data as u32 & 0b11111110000u32, 32) == ((p as u32) >> 3u32) & 1u32,
        parity(data as u32 & 0b11110001110u32, 32) == ((p as u32) >> 2u32) & 1u32,
        parity(data as u32 & 0b11001101101u32, 32) == ((p as u32) >> 1u32) & 1u32,
        parity(data as u32 & 0b10101011011u32, 32) == ((p as u32) >> 0u32) & 1u32,
        i < j < 15,
        s < 16,
        ((s as u32) >> 3u32) & 1u32 == parity(((code_word(data, p) ^ (1u16 << i)) ^ (1u16 << j)) as u32 & 0b111111100001000u32, 32),
        ((s as u32) >> 2u32) & 1u32 == parity(((code_word(data, p) ^ (1u16 << i)) ^ (1u16 << j)) as u32 & 0b111100011100100u32, 32),
        ((s as u32) >> 1u32) & 1u32 == parity(((code_word(data, p) ^ (1u16 << i)) ^ (1u16 << j)) as u32 & 0b110011011010010u32, 32),
        ((s as u32) >> 0u32) & 1u32 == parity(((code_word(data, p) ^ (1u16 << i)) ^ (1u16 << j)) as u32 & 0b101010110110001u32, 32),
    ensures
        s != 0,
        location_of(s) != 0,
{
}

/// Two flipped bits are taken for one: decoding a codeword with any two
/// of its 15 bits flipped corrects a single bit (to some other data).
pub proof fn lemma_double_error(data: u16, i: u16, j: u16)
    requires
        data < 0x800,
        i < j < 15,
    ensures
        spec_decode(((spec_encode(data) ^ (1u16 << i)) ^ (1u16 << j)) as u16) matches Some((_, n)) && n == 1,
{
    let d = data;
    lemma_products(d, 0);
    let p = gf2_product(d as u32, generator());
    let word = ((spec_encode(data) ^ (1u16 << i)) ^ (1u16 << j)) as u16;
    assert(spec_encode(data) == code_word(d, p));
    lemma_products(d, word);
    let s = gf2_product(word as u32, parity_check());
    lemma_two_bits(d, p, i, j, s);
    lemma_location_of(s);
}

} // verus!

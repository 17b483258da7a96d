//! Golay error-correcting codes for P25 voice and header decoding.
//!
//! Implements three variants:
//! - **Standard (23,12,7)**: Corrects up to 3 bit errors. Used for IMBE voice
//!   frame chunks u_0 through u_3.
//! - **Extended (24,12,8)**: Corrects up to 3 bit errors. Used for TDULC
//!   header words.
//! - **Shortened (18,6,8)**: Corrects up to 3 bit errors. Used for HDU header
//!   words and voice extra (LC/CC) hexbit words.
//!
//! The generator polynomial for these codes is:
//! g(x) = x^11 + x^10 + x^6 + x^5 + x^4 + x^2 + 1
//!
//! Decoding algorithms are derived from Hankerson et al (2000), Roman (1992),
//! and Lee et al (2013).

use vstd::prelude::*;

pub mod extended;
pub mod shortened;
pub mod standard;

verus! {

/// Number of set bits of `x` below bit `n`.
pub open spec fn ones(x: u32, n: nat) -> nat
    decreases n,
{
    if n == 0 {
        0
    } else {
        ones(x, (n - 1) as nat) + if (x >> ((n - 1) as u32)) & 1 == 1 {
            1nat
        } else {
            0nat
        }
    }
}

/// Hamming weight: the number of set bits of `x`.
pub open spec fn weight(x: u32) -> nat {
    ones(x, 32)
}

/// GF(2) inner product of two bit vectors: the parity of their common bits.
pub open spec fn dot2(a: u32, b: u32) -> u16 {
    (weight(a & b) % 2) as u16
}

/// GF(2) vector-matrix product **v** * **M**^T: one bit per row of `rows`,
/// the first row ending up in the most significant position.
pub open spec fn gf2_product(word: u32, rows: Seq<u32>) -> u16
    decreases rows.len(),
{
    if rows.len() == 0 {
        0
    } else {
        ((gf2_product(word, rows.drop_last()) << 1u16) | dot2(word, rows.last())) as u16
    }
}

/// Parity of the bits of `x` below bit `n`, as a word-level function.
pub open spec fn parity(x: u32, n: u32) -> u32
    decreases n,
{
    if n == 0 {
        0
    } else {
        ((parity(x, (n - 1) as u32) + ((x >> ((n - 1) as u32)) & 1u32)) % 2) as u32
    }
}

/// The parity of the set bits below bit `n` is their count modulo two.
proof fn lemma_parity_ones(x: u32, n: u32)
    requires
        n <= 32,
    ensures
        ones(x, n as nat) % 2 == parity(x, n),
    decreases n,
{
    if n > 0 {
        lemma_parity_ones(x, (n - 1) as u32);
        let y = x >> ((n - 1) as u32);
        vstd::bits::lemma_u32_low_bits_mask_is_mod(y, 1);
        vstd::bits::lemma_low_bits_mask_values();
        vstd::arithmetic::power2::lemma2_to64();
    }
}

/// An inner product is the parity of the common bits.
pub proof fn lemma_dot2_parity(a: u32, b: u32)
    ensures
        dot2(a, b) == parity(a & b, 32) as u16,
        parity(a & b, 32) <= 1,
{
    lemma_parity_ones(a & b, 32);
}

/// Number of set bits of `x` below bit `n`, as a word-level function.
pub open spec fn count(x: u32, n: u32) -> u32
    decreases n,
{
    if n == 0 {
        0
    } else {
        (count(x, (n - 1) as u32) + ((x >> ((n - 1) as u32)) & 1u32)) as u32
    }
}

/// The word-level count of set bits is the weight.
pub proof fn lemma_count_ones(x: u32, n: u32)
    requires
        n <= 32,
    ensures
        ones(x, n as nat) == count(x, n) as nat,
        count(x, n) <= n,
    decreases n,
{
    if n > 0 {
        lemma_count_ones(x, (n - 1) as u32);
        let y = x >> ((n - 1) as u32);
        vstd::bits::lemma_u32_low_bits_mask_is_mod(y, 1);
        vstd::bits::lemma_low_bits_mask_values();
        vstd::arithmetic::power2::lemma2_to64();
    }
}

/// A bit of the common bits of `a ^ b` and `h` is the sum of those of `a`
/// and of `b`, modulo two.
proof fn lemma_bit_xor(a: u32, b: u32, h: u32, k: u32)
    by (bit_vector)
    requires
        k < 32,
    ensures
        (((a ^ b) & h) >> k) & 1u32 == ((((a & h) >> k) & 1u32) + (((b & h) >> k) & 1u32)) % 2,
{
}

/// Parity is linear: the parity of the common bits of `a ^ b` and `h`
/// below bit `n` is the sum of those of `a` and of `b`.
pub proof fn lemma_parity_xor(a: u32, b: u32, h: u32, n: u32)
    requires
        n <= 32,
    ensures
        parity((a ^ b) & h, n) == (parity(a & h, n) + parity(b & h, n)) % 2,
    decreases n,
{
    if n > 0 {
        lemma_parity_xor(a, b, h, (n - 1) as u32);
        lemma_bit_xor(a, b, h, (n - 1) as u32);
    }
}

/// A product with `n` rows has at most `n` bits.
pub proof fn lemma_gf2_product_bound(word: u32, rows: Seq<u32>)
    requires
        rows.len() <= 16,
    ensures
        (gf2_product(word, rows) as u64) < (1u64 << (rows.len() as u64)),
    decreases rows.len(),
{
    if rows.len() > 0 {
        let prev_rows = rows.drop_last();
        lemma_gf2_product_bound(word, prev_rows);
        let p = gf2_product(word, prev_rows);
        let b = dot2(word, rows.last());
        let n = rows.len() as u64;
        assert(b <= 1);
        assert(((((p << 1u16) | b) as u16) as u64) < (1u64 << n)) by (bit_vector)
            requires
                (p as u64) < (1u64 << (n - 1) as u64),
                b <= 1,
                1 <= n <= 16,
        ;
    } else {
        crate::p25::bitwise::lemma_pow2_shifts();
    }
}

/// The first index at or after `i` whose table entry is within two bits of
/// `syn`.
pub open spec fn first_close(syn: u16, table: Seq<u16>, i: nat) -> Option<nat>
    decreases table.len() - i,
{
    if i >= table.len() {
        None
    } else if weight((syn ^ table[i as int]) as u32) <= 2 {
        Some(i)
    } else {
        first_close(syn, table, i + 1)
    }
}

/// A found index lies in the table, at or after the start, and its entry
/// is within two bits.
pub proof fn lemma_first_close_bound(syn: u16, table: Seq<u16>, i: nat)
    ensures
        first_close(syn, table, i) matches Some(j) ==> i <= j < table.len() && weight(
            (syn ^ table[j as int]) as u32,
        ) <= 2,
    decreases table.len() - i,
{
    if i < table.len() {
        lemma_first_close_bound(syn, table, i + 1);
    }
}

/// Count the set bits of a word.
pub fn count_ones(x: u32) -> (r: u32)
    ensures
        r == weight(x),
        r <= 32,
{
    let mut n: u32 = 0;
    let mut i: u32 = 0;
    while i < 32
        invariant
            i <= 32,
            n == ones(x, i as nat),
            n <= i,
        decreases 32 - i,
    {
        if (x >> i) & 1 == 1 {
            n += 1;
        }
        i += 1;
    }
    n
}

/// The first table index whose entry is within two bits of `syn`.
pub fn find_close(syn: u16, table: &[u16]) -> (r: Option<usize>)
    ensures
        r is None <==> first_close(syn, table@, 0) is None,
        r matches Some(i) ==> i < table@.len() && first_close(syn, table@, 0) == Some(i as nat),
{
    let mut i: usize = 0;
    while i < table.len()
        invariant
            i <= table@.len(),
            first_close(syn, table@, 0) == first_close(syn, table@, i as nat),
        decreases table@.len() - i,
    {
        let residual = syn ^ table[i];
        if count_ones(residual as u32) <= 2 {
            return Some(i);
        }
        i += 1;
    }
    None
}

/// Compute the GF(2) dot product of a binary vector with each row of a
/// matrix, shifting each resulting bit into the LSB of an accumulator.
///
/// This performs the vector-matrix multiplication **v** * **M**^T over GF(2),
/// where `word` is the input vector and `matrix` contains the rows of **M**.
pub fn gf2_matrix_multiply(word: u32, matrix: &[u32]) -> (r: u16)
    requires
        matrix@.len() <= 16,
    ensures
        r == gf2_product(word, matrix@),
{
    let mut accumulator: u16 = 0;
    let mut i: usize = 0;
    while i < matrix.len()
        invariant
            i <= matrix@.len(),
            matrix@.len() <= 16,
            accumulator == gf2_product(word, matrix@.subrange(0, i as int)),
        decreases matrix@.len() - i,
    {
        let row = matrix[i];
        let c = count_ones(word & row);
        let bit = (c & 1) as u16;
        proof {
            crate::p25::bitwise::lemma_mask_u32(c);
            let sub = matrix@.subrange(0, i + 1);
            assert(sub.drop_last() =~= matrix@.subrange(0, i as int));
            assert(sub.last() == row);
        }
        accumulator = (accumulator << 1) | bit;
        i += 1;
    }
    assert(matrix@.subrange(0, matrix@.len() as int) =~= matrix@);
    accumulator
}

// ---------------------------------------------------------------------------
// Zero syndromes
// ---------------------------------------------------------------------------

/// Zero has no set bits.
pub proof fn lemma_ones_zero(n: nat)
    requires
        n <= 32,
    ensures
        ones(0, n) == 0,
    decreases n,
{
    if n > 0 {
        lemma_ones_zero((n - 1) as nat);
        let k = (n - 1) as u32;
        crate::p25::bitwise::lemma_zero_bits(k);
    }
}

/// Bit `k` of a product is the inner product with row `len - 1 - k`.
pub proof fn lemma_product_bit(word: u32, rows: Seq<u32>, k: nat)
    requires
        k < rows.len() <= 16,
    ensures
        ((gf2_product(word, rows) as u32) >> (k as u32)) & 1 == dot2(word, rows[rows.len() - 1 - k]) as u32,
    decreases rows.len(),
{
    let prev = gf2_product(word, rows.drop_last());
    let b = dot2(word, rows.last());
    let kk = k as u32;
    assert(b <= 1);
    assert((((((prev << 1u16) | b) as u16) as u32) >> kk) & 1 == if kk == 0 {
        b as u32
    } else {
        ((prev as u32) >> ((kk - 1) as u32)) & 1
    }) by (bit_vector)
        requires
            b <= 1,
            kk < 16,
    ;
    if k > 0 {
        lemma_product_bit(word, rows.drop_last(), (k - 1) as nat);
    }
}

/// A product whose inner products all vanish is zero.
pub proof fn lemma_product_zero(word: u32, rows: Seq<u32>)
    requires
        forall|i: int| 0 <= i < rows.len() ==> dot2(word, #[trigger] rows[i]) == 0,
    ensures
        gf2_product(word, rows) == 0,
    decreases rows.len(),
{
    if rows.len() > 0 {
        let prefix = rows.drop_last();
        assert forall|i: int| 0 <= i < prefix.len() implies dot2(word, #[trigger] prefix[i]) == 0 by {
            assert(prefix[i] == rows[i]);
        }
        lemma_product_zero(word, prefix);
        assert(dot2(word, rows[rows.len() - 1]) == 0);
        crate::p25::bitwise::lemma_zero_bits(0);
    }
}

} // verus!

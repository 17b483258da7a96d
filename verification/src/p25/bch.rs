//! BCH(63,16,23) decoder for P25 NID error correction.
//!
//! Corrects up to 11 bit errors in the 63-bit BCH codeword portion
//! of the P25 Network Identifier. Uses Berlekamp-Massey decoding
//! with Chien search over GF(2^6).
//!
//! A 63-bit word is read as the binary polynomial r(x) whose constant term
//! is bit 0; its syndromes are r(alpha^1) .. r(alpha^22). A word is a
//! codeword when all of them vanish.

use vstd::prelude::*;
use crate::p25::coding::galois::{
    alpha_power, lemma_alpha_power, codeword_for_power, gf_exp, gf_log, lemma_exp_bound, lemma_exp_mod, lemma_log_exp,
    lemma_log_table, lemma_exp_table, log_table, power_of_codeword,
};
use crate::p25::coding::galois;

verus! {

/// Number of syndromes to compute (2t where t = 11).
pub const NUM_SYNDROMES: usize = 22;

/// Maximum number of correctable bit errors.
pub const MAX_ERRORS: usize = 11;

/// Field order: 2^6 - 1 = 63.
pub const FIELD_ORDER: usize = 63;

// ---------------------------------------------------------------------------
// Mathematical model
// ---------------------------------------------------------------------------

/// Bit `b` of `x`.
pub open spec fn bit_of(x: u64, b: nat) -> bool {
    (x >> (b as u64)) & 1 == 1
}

/// Syndrome `j` (0-based) of the bits of `x` below `n`: the sum of
/// alpha^(b * (j + 1)) over the set bits b < n.
pub open spec fn word_syndrome(x: u64, j: nat, n: nat) -> u8
    decreases n,
{
    if n == 0 {
        0
    } else {
        let s = word_syndrome(x, j, (n - 1) as nat);
        if bit_of(x, (n - 1) as nat) {
            s ^ (gf_exp((((n - 1) * (j + 1)) % 63) as nat) as u8)
        } else {
            s
        }
    }
}

/// Syndrome `j` (0-based) of a 63-bit word: r(alpha^(j+1)).
pub open spec fn syndrome(x: u64, j: nat) -> u8 {
    word_syndrome(x, j, 63)
}

/// A word of the BCH(63,16,23) code: every syndrome vanishes.
pub open spec fn is_codeword(x: u64) -> bool {
    forall|j: nat| j < 22 ==> #[trigger] syndrome(x, j) == 0
}

/// Number of set bits of `x` below bit `n`.
pub open spec fn bit_count(x: u64, n: nat) -> nat
    decreases n,
{
    if n == 0 {
        0
    } else {
        bit_count(x, (n - 1) as nat) + if bit_of(x, (n - 1) as nat) {
            1nat
        } else {
            0nat
        }
    }
}

/// The low 63 bits of `x`.
pub open spec fn low_bits(x: u64) -> u64 {
    (x % 0x8000_0000_0000_0000) as u64
}

// ---------------------------------------------------------------------------
// GF(2^6) arithmetic with primitive polynomial x^6 + x + 1.
// ---------------------------------------------------------------------------

/// Exponential table: `exp(i) = alpha^i` for i < 126 (two periods, so a
/// product can add two logarithms without reducing).
pub fn exp(i: usize) -> (r: u8)
    requires
        i < 126,
    ensures
        r == gf_exp((i % 63) as nat),
        r == gf_exp(i as nat),
        1 <= r < 64,
{
    proof {
        lemma_exp_mod(i as nat);
    }
    codeword_for_power(i)
}

/// Logarithm table: `log(v) = i` where `alpha^i = v`; `log(0)` is 0.
pub fn log(v: usize) -> (r: u8)
    requires
        v < 64,
    ensures
        v == 0 ==> r == 0,
        v >= 1 ==> r == gf_log(v as nat) && r < 63 && gf_exp(r as nat) == v,
{
    if v == 0 {
        0
    } else {
        power_of_codeword(v as u8) as u8
    }
}

/// Multiply two GF(2^6) elements.
pub fn gf_mul(a: u8, b: u8) -> (r: u8)
    requires
        a < 64,
        b < 64,
    ensures
        r == galois::gf_mul(a, b),
        r < 64,
{
    if a == 0 || b == 0 {
        return 0;
    }
    let la = log(a as usize);
    let lb = log(b as usize);
    let r = exp(la as usize + lb as usize);
    proof {
        lemma_exp_mod((la + lb) as nat);
    }
    r
}

/// Divide `a / b` in GF(2^6). `b` must not be zero.
pub fn gf_div(a: u8, b: u8) -> (r: u8)
    requires
        a < 64,
        1 <= b < 64,
    ensures
        r == galois::gf_div(a, b),
        r < 64,
{
    if a == 0 {
        return 0;
    }
    let la = log(a as usize);
    let lb = log(b as usize);
    let diff = la as usize + FIELD_ORDER - lb as usize;
    exp(diff % FIELD_ORDER)
}

// ---------------------------------------------------------------------------
// Syndrome computation.
// ---------------------------------------------------------------------------

/// Compute the 22 syndromes of a 63-bit received word.
///
/// `syndromes[j] = r(alpha^{j+1})` for j = 0..21, where r(x) is the
/// received polynomial with bit 0 as the constant term.
pub fn compute_syndromes(received: u64) -> (r: [u8; 22])
    ensures
        forall|j: int| 0 <= j < 22 ==> #[trigger] r@[j] == syndrome(received, j as nat),
        forall|j: int| 0 <= j < 22 ==> #[trigger] r@[j] < 64,
{
    let mut syndromes = [0u8; 22];
    let mut j: usize = 0;
    while j < NUM_SYNDROMES
        invariant
            j <= 22,
            syndromes@.len() == 22,
            forall|m: int| 0 <= m < j ==> #[trigger] syndromes@[m] == syndrome(received, m as nat),
            forall|m: int| 0 <= m < j ==> #[trigger] syndromes@[m] < 64,
        decreases 22 - j,
    {
        let mut sum = 0u8;
        let mut bit: usize = 0;
        while bit < FIELD_ORDER
            invariant
                j < 22,
                bit <= 63,
                sum == word_syndrome(received, j as nat, bit as nat),
                sum < 64,
            decreases 63 - bit,
        {
            if received >> (bit as u64) & 1 != 0 {
                assert(bit * (j + 1) <= 62 * 22) by (nonlinear_arith)
                    requires
                        bit < 63,
                        j < 22,
                ;
                let power = (bit * (j + 1)) % FIELD_ORDER;
                let e = exp(power);
                proof {
                    crate::p25::bitwise::lemma_bit_u64(received, bit as u64, 0);
                    crate::p25::bitwise::lemma_xor_u8(sum, e, 0);
                }
                sum ^= e;
            } else {
                proof {
                    assert(!(received >> (bit as u64) & 1 == 1));
                }
            }
            bit += 1;
        }
        syndromes[j] = sum;
        j += 1;
    }
    syndromes
}

/// Whether every syndrome is zero.
fn all_zero(s: &[u8; 22]) -> (r: bool)
    ensures
        r == forall|j: int| 0 <= j < 22 ==> #[trigger] s@[j] == 0,
{
    let mut j: usize = 0;
    while j < 22
        invariant
            j <= 22,
            forall|m: int| 0 <= m < j ==> #[trigger] s@[m] == 0,
        decreases 22 - j,
    {
        if s[j] != 0 {
            return false;
        }
        j += 1;
    }
    true
}

// ---------------------------------------------------------------------------
// Berlekamp-Massey algorithm.
// ---------------------------------------------------------------------------

/// The Berlekamp-Massey state: the connection polynomial, the polynomial
/// saved at the last length change, the LFSR length, the discrepancy at
/// that change, and the steps since it.
pub type BmState = (Seq<u8>, Seq<u8>, nat, u8, nat);

/// The polynomial 1 of degree below 12.
pub open spec fn unit_poly() -> Seq<u8> {
    Seq::new(12, |i: int| if i == 0 { 1u8 } else { 0u8 })
}

/// The discrepancy at step `n` over the first `k` taps of `sigma`:
/// S_n + sum_{i=1..k} sigma_i * S_{n-i}.
pub open spec fn bm_discrepancy(sigma: Seq<u8>, syn: Seq<u8>, n: int, k: nat) -> u8
    decreases k,
{
    if k == 0 {
        syn[n]
    } else {
        bm_discrepancy(sigma, syn, n, (k - 1) as nat) ^ galois::gf_mul(sigma[k as int], syn[n - k])
    }
}

/// `sigma` minus `scale` times `prev` shifted up by `shift` places,
/// truncated to 12 coefficients.
pub open spec fn bm_adjust(sigma: Seq<u8>, prev: Seq<u8>, scale: u8, shift: nat) -> Seq<u8> {
    Seq::new(
        12,
        |i: int|
            if shift <= i {
                sigma[i] ^ galois::gf_mul(scale, prev[i - shift])
            } else {
                sigma[i]
            },
    )
}

/// One Berlekamp-Massey step on syndrome `n`: a zero discrepancy only
/// lengthens the shift; otherwise the connection polynomial is corrected
/// with the saved one, and when twice the length is at most `n` the length
/// grows to `n + 1 - len` (no state when it passes 11).
pub open spec fn bm_step(st: BmState, syn: Seq<u8>, n: nat) -> Option<BmState> {
    let (sigma, prev, len, pd, shift) = st;
    let d = bm_discrepancy(sigma, syn, n as int, len);
    if d == 0 {
        Some((sigma, prev, len, pd, shift + 1))
    } else {
        let next = bm_adjust(sigma, prev, galois::gf_div(d, pd), shift);
        if 2 * len <= n {
            let new_len = (n + 1 - len) as nat;
            if new_len > 11 {
                None
            } else {
                Some((next, sigma, new_len, d, 1nat))
            }
        } else {
            Some((next, prev, len, pd, shift + 1))
        }
    }
}

/// The state after the first `n` syndromes, if the length stayed within 11.
pub open spec fn bm_run(syn: Seq<u8>, n: nat) -> Option<BmState>
    decreases n,
{
    if n == 0 {
        Some((unit_poly(), unit_poly(), 0nat, 1u8, 1nat))
    } else {
        match bm_run(syn, (n - 1) as nat) {
            Some(st) => bm_step(st, syn, (n - 1) as nat),
            None => None,
        }
    }
}

/// The LFSR length and connection polynomial that Berlekamp-Massey gives
/// for the 22 syndromes, or `None` when the length passes 11.
pub open spec fn locator(syn: Seq<u8>) -> Option<(usize, Seq<u8>)> {
    match bm_run(syn, 22) {
        Some(st) => Some((st.2 as usize, st.0)),
        None => None,
    }
}

/// Run the Berlekamp-Massey algorithm to find the error locator polynomial.
///
/// Returns `(degree, sigma)` where `degree` is the number of errors detected
/// and `sigma` holds the polynomial coefficients sigma_0 .. sigma_11, or
/// `None` if more than 11 errors are detected. The LFSR length never
/// shrinks, so the search stops as soon as it passes 11.
fn berlekamp_massey(syndromes: &[u8; 22]) -> (r: Option<(usize, [u8; 12])>)
    requires
        forall|j: int| 0 <= j < 22 ==> #[trigger] syndromes@[j] < 64,
    ensures
        match locator(syndromes@) {
            None => r is None,
            Some((d, s)) => r matches Some((d2, sigma)) && d2 == d && sigma@ == s,
        },
        r matches Some((d, sigma)) ==> d <= 11 && sigma@[0] == 1 && forall|i: int|
            0 <= i < 12 ==> #[trigger] sigma@[i] < 64,
{
    let mut sigma: [u8; 12] = [0; 12];
    sigma[0] = 1;
    let mut prev: [u8; 12] = [0; 12];
    prev[0] = 1;
    assert(sigma@ =~= unit_poly());
    assert(prev@ =~= unit_poly());

    let mut lfsr_len: usize = 0;
    let mut prev_discrepancy: u8 = 1;
    let mut shift: usize = 1;

    let mut n: usize = 0;
    while n < NUM_SYNDROMES
        invariant
            n <= 22,
            forall|j: int| 0 <= j < 22 ==> #[trigger] syndromes@[j] < 64,
            sigma@.len() == 12,
            prev@.len() == 12,
            sigma@[0] == 1,
            prev@[0] == 1,
            forall|i: int| 0 <= i < 12 ==> #[trigger] sigma@[i] < 64,
            forall|i: int| 0 <= i < 12 ==> #[trigger] prev@[i] < 64,
            lfsr_len <= 11,
            lfsr_len <= n,
            1 <= prev_discrepancy < 64,
            1 <= shift <= n + 1,
            bm_run(syndromes@, n as nat) == Some(
                (sigma@, prev@, lfsr_len as nat, prev_discrepancy, shift as nat),
            ),
        decreases 22 - n,
    {
        // Compute discrepancy: d = S_{n+1} + sum sigma_i * S_{n+1-i}.
        let mut discrepancy = syndromes[n];
        let mut i: usize = 1;
        while i <= lfsr_len
            invariant
                1 <= i <= lfsr_len + 1,
                lfsr_len <= 11,
                lfsr_len <= n,
                n < 22,
                discrepancy < 64,
                sigma@.len() == 12,
                forall|j: int| 0 <= j < 22 ==> #[trigger] syndromes@[j] < 64,
                forall|m: int| 0 <= m < 12 ==> #[trigger] sigma@[m] < 64,
                discrepancy == bm_discrepancy(sigma@, syndromes@, n as int, (i - 1) as nat),
            decreases lfsr_len + 1 - i,
        {
            let term = gf_mul(sigma[i], syndromes[n - i]);
            proof {
                crate::p25::bitwise::lemma_xor_u8(discrepancy, term, 0);
            }
            discrepancy ^= term;
            i += 1;
        }
        assert(discrepancy == bm_discrepancy(sigma@, syndromes@, n as int, lfsr_len as nat));

        if discrepancy == 0 {
            shift += 1;
            n += 1;
            continue;
        }

        let scale = gf_div(discrepancy, prev_discrepancy);
        let ghost orig = sigma@;

        if 2 * lfsr_len <= n {
            // LFSR length must increase.
            let saved = sigma;
            let mut i: usize = shift;
            while i <= MAX_ERRORS
                invariant
                    1 <= shift,
                    shift <= i,
                    i <= 12 || i == shift,
                    sigma@.len() == 12,
                    prev@.len() == 12,
                    sigma@[0] == 1,
                    scale < 64,
                    forall|m: int| 0 <= m < 12 ==> #[trigger] sigma@[m] < 64,
                    forall|m: int| 0 <= m < 12 ==> #[trigger] prev@[m] < 64,
                    forall|m: int| 0 <= m < 12 ==> #[trigger] sigma@[m] == if shift <= m < i {
                        orig[m] ^ galois::gf_mul(scale, prev@[m - shift])
                    } else {
                        orig[m]
                    },
                decreases 12 - i,
            {
                let term = gf_mul(scale, prev[i - shift]);
                let v = sigma[i] ^ term;
                proof {
                    let s = sigma@[i as int];
                    crate::p25::bitwise::lemma_xor_u8(s, term, 0);
                }
                sigma[i] = v;
                i += 1;
            }
            assert(sigma@ =~= bm_adjust(orig, prev@, scale, shift as nat));
            assert(saved@ == orig);
            prev = saved;
            lfsr_len = n + 1 - lfsr_len;
            prev_discrepancy = discrepancy;
            shift = 1;
            if lfsr_len > MAX_ERRORS {
                proof {
                    assert(bm_run(syndromes@, (n + 1) as nat) is None);
                    lemma_bm_none_stays(syndromes@, (n + 1) as nat, 22);
                }
                return None;
            }
        } else {
            // Length stays the same.
            let mut i: usize = shift;
            while i <= MAX_ERRORS
                invariant
                    1 <= shift,
                    shift <= i,
                    i <= 12 || i == shift,
                    sigma@.len() == 12,
                    prev@.len() == 12,
                    sigma@[0] == 1,
                    scale < 64,
                    forall|m: int| 0 <= m < 12 ==> #[trigger] sigma@[m] < 64,
                    forall|m: int| 0 <= m < 12 ==> #[trigger] prev@[m] < 64,
                    forall|m: int| 0 <= m < 12 ==> #[trigger] sigma@[m] == if shift <= m < i {
                        orig[m] ^ galois::gf_mul(scale, prev@[m - shift])
                    } else {
                        orig[m]
                    },
                decreases 12 - i,
            {
                let term = gf_mul(scale, prev[i - shift]);
                let v = sigma[i] ^ term;
                proof {
                    let s = sigma@[i as int];
                    crate::p25::bitwise::lemma_xor_u8(s, term, 0);
                }
                sigma[i] = v;
                i += 1;
            }
            assert(sigma@ =~= bm_adjust(orig, prev@, scale, shift as nat));
            shift += 1;
        }
        n += 1;
    }

    Some((lfsr_len, sigma))
}

/// Once the length has passed 11, no later step gives a state.
proof fn lemma_bm_none_stays(syn: Seq<u8>, n: nat, m: nat)
    requires
        bm_run(syn, n) is None,
        n <= m,
    ensures
        bm_run(syn, m) is None,
    decreases m - n,
{
    if n < m {
        lemma_bm_none_stays(syn, n, (m - 1) as nat);
    }
}

// ---------------------------------------------------------------------------
// Chien search: find roots of the error locator polynomial.
// ---------------------------------------------------------------------------

/// The locator polynomial `sigma` over its first `j` taps, at alpha^i:
/// sigma_0 + sum_{k=1..j} sigma_k * alpha^(i*k).
pub open spec fn chien_value(sigma: Seq<u8>, i: nat, j: nat) -> u8
    decreases j,
{
    if j == 0 {
        sigma[0]
    } else {
        chien_value(sigma, i, (j - 1) as nat) ^ galois::gf_mul(sigma[j as int], gf_exp((i * j) % 63) as u8)
    }
}

/// The error positions (63 - i) % 63, for each i below `n` in order at
/// which the degree-`degree` locator vanishes.
pub open spec fn chien_roots(sigma: Seq<u8>, degree: nat, n: nat) -> Seq<usize>
    decreases n,
{
    if n == 0 {
        Seq::empty()
    } else {
        let i = (n - 1) as nat;
        let found = chien_roots(sigma, degree, i);
        if chien_value(sigma, i, degree) == 0 {
            found.push(((63 - i) % 63) as usize)
        } else {
            found
        }
    }
}

/// Evaluate the error locator polynomial at all field elements to find
/// error positions.
///
/// Returns the bit positions (0..62) where errors occurred: position
/// (63 - i) % 63 for each i with sigma(alpha^i) = 0, in order of i, so the
/// positions are distinct.
fn chien_search(degree: usize, sigma: &[u8; 12]) -> (r: Vec<usize>)
    requires
        degree <= 11,
        forall|i: int| 0 <= i < 12 ==> #[trigger] sigma@[i] < 64,
    ensures
        r@ == chien_roots(sigma@, degree as nat, 63),
        forall|k: int| 0 <= k < r@.len() ==> #[trigger] r@[k] < 63,
        forall|k: int, l: int| 0 <= k < l < r@.len() ==> r@[k] != r@[l],
        r@.len() <= 63,
{
    let mut errors: Vec<usize> = Vec::new();
    let mut i: usize = 0;
    while i < FIELD_ORDER
        invariant
            i <= 63,
            degree <= 11,
            forall|m: int| 0 <= m < 12 ==> #[trigger] sigma@[m] < 64,
            errors@.len() <= i,
            forall|k: int| 0 <= k < errors@.len() ==> #[trigger] errors@[k] < 63,
            forall|k: int| 0 <= k < errors@.len() ==> i > 0 && (#[trigger] errors@[k] == 0
                || errors@[k] >= 64 - i),
            forall|k: int, l: int| 0 <= k < l < errors@.len() ==> errors@[k] != errors@[l],
            errors@ == chien_roots(sigma@, degree as nat, i as nat),
        decreases 63 - i,
    {
        // Evaluate sigma(alpha^i).
        let mut val = sigma[0];
        let mut j: usize = 0;
        while j < degree
            invariant
                j <= degree,
                degree <= 11,
                i < 63,
                val < 64,
                forall|m: int| 0 <= m < 12 ==> #[trigger] sigma@[m] < 64,
                val == chien_value(sigma@, i as nat, j as nat),
            decreases degree - j,
        {
            let coeff = sigma[j + 1];
            assert(i * (j + 1) <= 62 * 11) by (nonlinear_arith)
                requires
                    i < 63,
                    j < 11,
            ;
            let power = (i * (j + 1)) % FIELD_ORDER;
            let term = gf_mul(coeff, exp(power));
            proof {
                crate::p25::bitwise::lemma_xor_u8(val, term, 0);
            }
            val ^= term;
            j += 1;
        }

        if val == 0 {
            // alpha^i is a root: error at position (63 - i) % 63.
            let error_pos = (FIELD_ORDER - i) % FIELD_ORDER;
            proof {
                if i > 0 {
                    assert(error_pos == 63 - i);
                }
            }
            errors.push(error_pos);
        }
        i += 1;
    }

    errors
}

// ---------------------------------------------------------------------------
// Public API.
// ---------------------------------------------------------------------------

/// Result of BCH decoding.
#[derive(Debug, Clone, Copy, PartialEq, Eq)]
pub struct BchResult {
    /// The corrected 63-bit BCH codeword.
    pub corrected: u64,
    /// Number of bit errors that were corrected (0..=11).
    pub errors_corrected: usize,
}

/// Flipping bit `p` changes bit `p` and no other.
proof fn lemma_flip_bit(x: u64, p: u64, b: u64)
    requires
        p < 64,
        b < 64,
    ensures
        bit_of(x ^ (1u64 << p), b as nat) == if b == p {
            !bit_of(x, b as nat)
        } else {
            bit_of(x, b as nat)
        },
{
    crate::p25::bitwise::lemma_bit_u64(x, b, p);
    assert((b as nat) as u64 == b);
}

/// No bit of zero is set.
proof fn lemma_bit_count_zero(n: nat)
    requires
        n <= 64,
    ensures
        bit_count(0, n) == 0,
        forall|b: nat| b < 64 ==> !#[trigger] bit_of(0, b),
    decreases n,
{
    assert forall|b: nat| b < 64 implies !#[trigger] bit_of(0, b) by {
        crate::p25::bitwise::lemma_bit_u64(0, b as u64, 0);
    }
    if n > 0 {
        lemma_bit_count_zero((n - 1) as nat);
    }
}

/// Flipping a clear bit adds one to the count of set bits at and above it.
proof fn lemma_bit_count_flip(x: u64, p: u64, n: nat)
    requires
        p < 64,
        !bit_of(x, p as nat),
        n <= 64,
    ensures
        bit_count(x ^ (1u64 << p), n) == bit_count(x, n) + if p < n {
            1nat
        } else {
            0nat
        },
    decreases n,
{
    if n > 0 {
        lemma_bit_count_flip(x, p, (n - 1) as nat);
        let b = (n - 1) as u64;
        crate::p25::bitwise::lemma_bit_u64(x, b, p);
        crate::p25::bitwise::lemma_bit_u64(x, p, p);
    }
}

/// The 22 syndromes of a word.
pub open spec fn syndromes_of(w: u64) -> Seq<u8> {
    Seq::new(22, |j: int| syndrome(w, j as nat))
}

/// `w` with the bits at the positions `pos` flipped, in order.
pub open spec fn flip_positions(w: u64, pos: Seq<usize>) -> u64
    decreases pos.len(),
{
    if pos.len() == 0 {
        w
    } else {
        flip_positions(w, pos.drop_last()) ^ (1u64 << (pos.last() as u64))
    }
}

/// What decoding gives for a received word: its low 63 bits when they
/// form a codeword; otherwise the word with the bits flipped at the roots
/// of the Berlekamp-Massey locator, when the locator has as many roots as
/// its degree and the result is a codeword; otherwise nothing.
pub open spec fn bch_decoded(received: u64) -> Option<BchResult> {
    let w = low_bits(received);
    if is_codeword(w) {
        Some(BchResult { corrected: w, errors_corrected: 0 })
    } else {
        match locator(syndromes_of(w)) {
            None => None,
            Some((degree, sigma)) => {
                let pos = chien_roots(sigma, degree as nat, 63);
                let c = flip_positions(w, pos);
                if pos.len() == degree && is_codeword(c) {
                    Some(BchResult { corrected: c, errors_corrected: degree })
                } else {
                    None
                }
            },
        }
    }
}

/// Decode a 63-bit BCH(63,16,23) codeword, correcting up to 11 bit errors.
///
/// Only the lower 63 bits of `received` are used. Returns the corrected
/// codeword and error count, or `None` if the error pattern exceeds the
/// correction capability. A word that is already a codeword is returned
/// unchanged; any other result is a codeword that differs from the input
/// in exactly `errors_corrected` (at most 11) bits.
pub fn decode(received: u64) -> (r: Option<BchResult>)
    ensures
        r == bch_decoded(received),
        is_codeword(low_bits(received)) ==> r == Some(
            BchResult { corrected: low_bits(received), errors_corrected: 0 },
        ),
        r matches Some(res) ==> {
            &&& is_codeword(res.corrected)
            &&& res.corrected < 0x8000_0000_0000_0000
            &&& res.errors_corrected <= 11
            &&& bit_count(res.corrected ^ low_bits(received), 64) == res.errors_corrected
            &&& encoded(((res.corrected >> 47u64) & 0xFFFF) as u16) == res.corrected
        },
{
    let ghost original = received;
    let received = received & 0x7FFF_FFFF_FFFF_FFFF;
    proof {
        let y = original;
        assert(y & 0x7FFF_FFFF_FFFF_FFFF == (y % 0x8000_0000_0000_0000) as u64 && y
            & 0x7FFF_FFFF_FFFF_FFFF < 0x8000_0000_0000_0000) by (bit_vector);
    }
    assert(received == low_bits(original));

    let syndromes = compute_syndromes(received);
    assert(syndromes@ =~= syndromes_of(received));
    proof {
        let y = received;
        crate::p25::bitwise::lemma_bit_u64(y, 0, 0);
        lemma_bit_count_zero(64);
    }

    if all_zero(&syndromes) {
        proof {
            assert forall|j: nat| j < 22 implies #[trigger] syndrome(received, j) == 0 by {
                assert(syndromes@[j as int] == 0);
            }
            lemma_codeword_is_encoding(received);
        }
        return Some(BchResult { corrected: received, errors_corrected: 0 });
    }
    let (degree, sigma) = match berlekamp_massey(&syndromes) {
        Some(v) => v,
        None => return None,
    };
    let errors = chien_search(degree, &sigma);

    // If Chien search didn't find exactly `degree` roots, the error
    // pattern is uncorrectable.
    if errors.len() != degree {
        return None;
    }

    let mut corrected = received;
    let mut k: usize = 0;
    while k < errors.len()
        invariant
            k <= errors@.len(),
            errors@.len() == degree,
            degree <= 11,
            forall|m: int| 0 <= m < errors@.len() ==> #[trigger] errors@[m] < 63,
            forall|m: int, l: int| 0 <= m < l < errors@.len() ==> errors@[m] != errors@[l],
            corrected < 0x8000_0000_0000_0000,
            received == low_bits(original),
            bit_count(corrected ^ received, 64) == k,
            corrected == flip_positions(received, errors@.subrange(0, k as int)),
            forall|b: nat| b < 64 ==> (#[trigger] bit_of(corrected ^ received, b) <==> exists|m: int|
                0 <= m < k && errors@[m] == b),
        decreases errors@.len() - k,
    {
        let pos = errors[k];
        let diff = corrected ^ received;
        proof {
            assert(!bit_of(diff, pos as nat)) by {
                if bit_of(diff, pos as nat) {
                    let m = choose|m: int| 0 <= m < k && errors@[m] == pos;
                    assert(errors@[m] != errors@[k as int]);
                }
            }
            lemma_bit_count_flip(diff, pos as u64, 64);
        }
        let next = corrected ^ (1u64 << (pos as u64));
        proof {
            let c = corrected;
            let rv = received;
            let p = pos as u64;
            assert(next ^ rv == diff ^ (1u64 << p)) by (bit_vector)
                requires
                    next == c ^ (1u64 << p),
                    diff == c ^ rv,
            ;
            crate::p25::bitwise::lemma_bit_u64(c, 0, p);
            assert forall|b: nat| b < 64 implies (#[trigger] bit_of(next ^ received, b) <==> exists|m: int|
                0 <= m < k + 1 && errors@[m] == b) by {
                lemma_flip_bit(diff, p, b as u64);
                assert(bit_of(diff, b) <==> exists|m: int| 0 <= m < k && errors@[m] == b);
                if b == pos {
                    assert(errors@[k as int] == b);
                } else {
                    if exists|m: int| 0 <= m < k + 1 && errors@[m] == b {
                        let m = choose|m: int| 0 <= m < k + 1 && errors@[m] == b;
                        assert(m != k);
                        assert(0 <= m < k && errors@[m] == b);
                    }
                    if bit_of(diff, b) {
                        let m = choose|m: int| 0 <= m < k && errors@[m] == b;
                        assert(0 <= m < k + 1 && errors@[m] == b);
                    }
                }
            }
        }
        proof {
            let pre = errors@.subrange(0, k as int);
            let post = errors@.subrange(0, k + 1);
            assert(post.drop_last() =~= pre);
            assert(post.last() == pos);
        }
        corrected = next;
        k += 1;
    }
    assert(errors@.subrange(0, errors@.len() as int) =~= errors@);

    // Verify correction by recomputing syndromes.
    let check = compute_syndromes(corrected);
    if !all_zero(&check) {
        return None;
    }
    proof {
        assert forall|j: nat| j < 22 implies #[trigger] syndrome(corrected, j) == 0 by {
            assert(check@[j as int] == 0);
        }
        lemma_codeword_is_encoding(corrected);
    }

    Some(BchResult { corrected, errors_corrected: degree })
}

/// Extract the 16 data bits (NAC + DUID) from a 63-bit BCH codeword.
///
/// Data occupies the most significant 16 bits: positions 62..47.
pub fn extract_data(codeword: u64) -> (r: u16)
    ensures
        r == (codeword >> 47u64) & 0xFFFF,
{
    let v = (codeword >> 47) & 0xFFFF;
    assert(v < 0x10000) by (bit_vector)
        requires
            v == (codeword >> 47u64) & 0xFFFF,
    ;
    v as u16
}

// ---------------------------------------------------------------------------
// Encoder (test support and diagnostics).
// ---------------------------------------------------------------------------

/// Generator polynomial roots: powers of alpha whose conjugacy classes
/// intersect {1..22}. These 47 roots define the BCH(63,16,23) code.
pub open spec fn generator_roots() -> Seq<nat> {
    seq![
        1nat, 2, 3, 4, 5, 6, 7, 8, 9, 10, 11, 12, 13, 14, 15, 16, 17, 18, 19, 20, 21, 22, 24,
        25, 26, 28, 30, 32, 33, 34, 35, 36, 37, 38, 39, 40, 41, 42, 44, 48, 49, 50, 51, 52, 56,
        57, 60,
    ]
}

/// Field product written with the value-by-value logarithm table.
pub open spec fn table_mul(a: u8, b: u8) -> u8 {
    if a == 0 || b == 0 {
        0
    } else {
        gf_exp((log_table(a as nat) + log_table(b as nat)) % 63) as u8
    }
}

/// The coefficients of (x + root) * p(x), where p has degree below `deg`.
pub open spec fn times_root(p: Seq<u8>, root: u8, deg: nat) -> Seq<u8> {
    Seq::new(
        p.len(),
        |i: int|
            if i == 0 {
                table_mul(p[0], root)
            } else if i <= deg {
                p[i - 1] ^ table_mul(p[i], root)
            } else {
                p[i]
            },
    )
}

/// The product of (x + alpha^r) over the first `k` generator roots, as 48
/// coefficients.
pub open spec fn generator_coefs(k: nat) -> Seq<u8>
    decreases k,
{
    if k == 0 {
        Seq::new(48, |i: int| if i == 0 { 1u8 } else { 0u8 })
    } else {
        let prev = generator_coefs((k - 1) as nat);
        times_root(prev, gf_exp(generator_roots()[k - 1]) as u8, k)
    }
}

/// The coefficients equal to 1 among the first `n`, as a bitmask.
pub open spec fn coef_bits(s: Seq<u8>, n: nat) -> u64
    decreases n,
{
    if n == 0 {
        0
    } else {
        coef_bits(s, (n - 1) as nat) | if s[n - 1] == 1 {
            1u64 << ((n - 1) as u64)
        } else {
            0u64
        }
    }
}

/// The written-out logarithm table agrees with the logarithm.
proof fn lemma_table_mul(a: u8, b: u8)
    requires
        a < 64,
        b < 64,
    ensures
        table_mul(a, b) == galois::gf_mul(a, b),
{
    if a != 0 && b != 0 {
        lemma_log_exp();
        lemma_log_table();
        assert(log_table(gf_exp(gf_log(a as nat))) == gf_log(a as nat));
        assert(log_table(gf_exp(gf_log(b as nat))) == gf_log(b as nat));
    }
}

/// Compute the generator polynomial g(x) as a u64 bitmask.
///
/// g(x) = product of (x + alpha^j) for each root power j, computed in
/// GF(2^6)[x]; the bitmask has bit i set where the coefficient of x^i is 1.
pub fn compute_generator_poly() -> (r: u64)
    ensures
        r == coef_bits(generator_coefs(47), 48),
{
    let roots: [usize; 47] = [
        1, 2, 3, 4, 5, 6, 7, 8, 9, 10, 11, 12, 13, 14, 15, 16, 17, 18, 19, 20, 21, 22, 24, 25,
        26, 28, 30, 32, 33, 34, 35, 36, 37, 38, 39, 40, 41, 42, 44, 48, 49, 50, 51, 52, 56, 57,
        60,
    ];
    assert(roots@ =~= generator_roots().map_values(|v: nat| v as usize));
    // Polynomial coefficients in GF(2^6). Index = degree.
    let mut poly = [0u8; 48];
    poly[0] = 1;
    assert(poly@ =~= generator_coefs(0));
    let mut deg: usize = 0;

    while deg < 47
        invariant
            deg <= 47,
            roots@ == generator_roots().map_values(|v: nat| v as usize),
            poly@ == generator_coefs(deg as nat),
            forall|m: int| 0 <= m < 48 ==> #[trigger] poly@[m] < 64,
        decreases 47 - deg,
    {
        let rp = roots[deg];
        assert(rp < 63);
        let root = exp(rp);
        let ghost old_poly = poly@;
        let ghost target = times_root(old_poly, root, (deg + 1) as nat);
        assert(generator_roots()[deg as int] == rp);
        deg += 1;
        // Multiply by (x + root): new[i] = old[i-1] XOR root*old[i].
        let mut i: usize = deg;
        while i >= 1
            invariant
                1 <= deg <= 47,
                i <= deg,
                root < 64,
                old_poly.len() == 48,
                target == times_root(old_poly, root, deg as nat),
                poly@.len() == 48,
                forall|m: int| 0 <= m < 48 ==> #[trigger] old_poly[m] < 64,
                forall|m: int| 0 <= m < 48 ==> #[trigger] poly@[m] < 64,
                forall|m: int| i < m <= deg ==> #[trigger] poly@[m] == target[m],
                forall|m: int| (0 <= m <= i || deg < m < 48) ==> #[trigger] poly@[m] == old_poly[m],
            decreases i,
        {
            let a = poly[i - 1];
            let b = poly[i];
            let prod = gf_mul(b, root);
            proof {
                lemma_table_mul(b, root);
                crate::p25::bitwise::lemma_xor_u8(a, prod, 0);
            }
            poly[i] = a ^ prod;
            i -= 1;
        }
        let c0 = poly[0];
        let p0 = gf_mul(c0, root);
        proof {
            lemma_table_mul(c0, root);
        }
        poly[0] = p0;
        assert(poly@ =~= target);
    }

    // Convert to u64 bitmask, keeping the coefficients equal to 1.
    let mut result = 0u64;
    let mut i: usize = 0;
    while i < 48
        invariant
            i <= 48,
            poly@ == generator_coefs(47),
            result == coef_bits(poly@, i as nat),
        decreases 48 - i,
    {
        if poly[i] == 1 {
            result |= 1u64 << (i as u64);
        } else {
            proof {
                crate::p25::bitwise::lemma_bit_u64(result, 0, 0);
            }
        }
        i += 1;
    }
    result
}

/// Long division over GF(2): for each bit from `i - 1` down to 47 that is
/// set, cancel it with the generator `g` shifted into place.
pub open spec fn reduce_from(x: u64, g: u64, i: nat) -> u64
    decreases i,
{
    if i <= 47 {
        x
    } else {
        let b = (i - 1) as u64;
        let y = if (x >> b) & 1 == 1 {
            x ^ (g << ((i - 1 - 47) as u64))
        } else {
            x
        };
        reduce_from(y, g, (i - 1) as nat)
    }
}

/// The generator polynomial g(x) of the code as a bitmask: the value that
/// `compute_generator_poly` computes, written out.
pub const GENERATOR_POLY: u64 = 0xCD930BDD3B2B;

/// The systematic codeword of 16 data bits: the data in bits 62-47 and
/// the remainder of data * x^47 divided by g(x) in bits 46-0.
pub open spec fn encoded(data: u16) -> u64 {
    ((data as u64) << 47u64) | (reduce_from((data as u64) << 47u64, GENERATOR_POLY, 63)
        & 0x7FFF_FFFF_FFFFu64)
}

/// Encode 16 data bits into a 63-bit BCH(63,16,23) codeword.
///
/// Uses systematic encoding: data occupies bits 62-47 and the 47
/// parity bits occupy bits 46-0 (the remainder of data * x^47 divided by
/// the generator polynomial).
pub fn encode(data: u16) -> (r: u64)
    ensures
        r == encoded(data),
        r >> 47u64 == data as u64,
        r < 0x8000_0000_0000_0000,
        is_codeword(r),
        bch_decoded(r) == Some(BchResult { corrected: r, errors_corrected: 0 }),
{
    let genpoly = GENERATOR_POLY;

    // Shift data to bits 62-47 of the codeword.
    let mut dividend = (data as u64) << 47;

    // Polynomial division over GF(2): compute remainder of data*x^47 / g(x).
    let ghost start = dividend;
    let mut i: u64 = 63;
    while i > 47
        invariant
            47 <= i <= 63,
            genpoly == GENERATOR_POLY,
            reduce_from(dividend, genpoly, i as nat) == reduce_from(start, genpoly, 63),
        decreases i,
    {
        i -= 1;
        if dividend >> i & 1 == 1 {
            dividend ^= genpoly << (i - 47);
        }
    }

    // Remainder is in bits 0-46; combine with original data.
    let remainder = dividend & 0x7FFF_FFFF_FFFF;
    let d = data as u64;
    let r = (d << 47) | remainder;
    proof {
        lemma_code_words(0, 0, 0, 0, 0, 0, d, dividend);
        lemma_encode_codeword(data);
        lemma_encode_roundtrip(data);
    }
    r
}

// ---------------------------------------------------------------------------
// Single-error correction.
// ---------------------------------------------------------------------------

/// The term that bit `p` adds to syndrome `j`: alpha^(p * (j + 1)).
pub open spec fn bit_term(p: nat, j: nat) -> u8 {
    gf_exp((p * (j + 1)) % 63) as u8
}

/// Flipping bit `p` adds its term to a syndrome over the bits below `n`
/// that include it, and leaves the others alone.
proof fn lemma_flip_syndrome(x: u64, p: u64, j: nat, n: nat)
    requires
        p < 63,
        n <= 63,
    ensures
        word_syndrome(x ^ (1u64 << p), j, n) == if (p as nat) < n {
            word_syndrome(x, j, n) ^ bit_term(p as nat, j)
        } else {
            word_syndrome(x, j, n)
        },
    decreases n,
{
    if n > 0 {
        let m = (n - 1) as nat;
        lemma_flip_syndrome(x, p, j, m);
        lemma_flip_bit(x, p, m as u64);
        assert((m as u64) as nat == m);
        let a = word_syndrome(x, j, m);
        let t = bit_term(p as nat, j);
        let u = gf_exp(((m * (j + 1)) % 63) as nat) as u8;
        crate::p25::bitwise::lemma_xor_u8(a, t, u);
        crate::p25::bitwise::lemma_xor_u8(a, u, t);
        crate::p25::bitwise::lemma_xor_u8(u, t, a);
        crate::p25::bitwise::lemma_xor_u8(a, t, t);
        crate::p25::bitwise::lemma_xor_u8(t, t, a);
        if m == p as nat {
            assert(u == t);
        }
    }
}

/// Multiplying powers of alpha adds their exponents modulo 63.
proof fn lemma_mul_powers(x: nat, y: nat)
    requires
        x < 63,
        y < 63,
    ensures
        galois::gf_mul(gf_exp(x) as u8, gf_exp(y) as u8) == gf_exp((x + y) % 63) as u8,
        1 <= gf_exp(x) < 64,
{
    lemma_log_exp();
    assert((gf_exp(x) as u8) as nat == gf_exp(x));
    assert((gf_exp(y) as u8) as nat == gf_exp(y));
}

/// alpha^k is one only for k = 0 among the exponents below 63.
proof fn lemma_exp_one(k: nat)
    requires
        k < 63,
    ensures
        gf_exp(k) == 1 <==> k == 0,
{
    lemma_log_exp();
    lemma_exp_table();
    if gf_exp(k) == 1 {
        assert(gf_log(gf_exp(k)) == k);
        assert(gf_log(gf_exp(0)) == 0);
    }
}

/// The terms of bit `p` are non-zero field elements; each is the previous
/// one times the first, alpha^p.
proof fn lemma_term_facts(p: nat, n: nat)
    requires
        p < 63,
    ensures
        1 <= bit_term(p, n) < 64,
        bit_term(p, 0) == gf_exp(p) as u8,
        n >= 1 ==> galois::gf_mul(bit_term(p, 0), bit_term(p, (n - 1) as nat)) == bit_term(p, n),
{
    lemma_log_exp();
    lemma_exp_bound((p * (n + 1)) % 63);
    assert(p * 1 == p);
    if n >= 1 {
        let m = (n - 1) as nat;
        let q = (p * n) % 63;
        lemma_mul_powers(p, q);
        assert(p * (m + 1) == p * n);
        assert(p * (n + 1) == p * n + p) by (nonlinear_arith);
        vstd::arithmetic::div_mod::lemma_add_mod_noop(p as int, (p * n) as int, 63);
        assert(p % 63 == p);
    }
}

/// Dividing by one changes nothing.
proof fn lemma_div_one(a: u8)
    requires
        1 <= a < 64,
    ensures
        galois::gf_div(a, 1) == a,
{
    lemma_log_exp();
    lemma_exp_table();
    assert(gf_log(1) == 0) by {
        assert(gf_log(gf_exp(0)) == 0);
    }
    let la = gf_log(a as nat);
    assert((63 + la - 0) as nat % 63 == la) by {
        vstd::arithmetic::div_mod::lemma_mod_add_multiples_vanish(la as int, 63);
    }
}

/// The syndromes of a single error at bit `p`.
pub open spec fn single_syndromes(p: nat) -> Seq<u8> {
    Seq::new(22, |j: int| bit_term(p, j as nat))
}

/// The locator 1 + a x of a single error with term `a`.
pub open spec fn single_locator(a: u8) -> Seq<u8> {
    Seq::new(12, |i: int| if i == 0 { 1u8 } else if i == 1 { a } else { 0u8 })
}

/// The first Berlekamp-Massey step on the syndromes of a single error at
/// bit `p` sets the locator to 1 + alpha^p x, with length one.
proof fn lemma_bm_single_first(p: nat)
    requires
        p < 63,
    ensures
        bm_step((unit_poly(), unit_poly(), 0nat, 1u8, 1nat), single_syndromes(p), 0) == Some(
            (single_locator(bit_term(p, 0)), unit_poly(), 1nat, bit_term(p, 0), 1nat),
        ),
{
    let syn = single_syndromes(p);
    let a = bit_term(p, 0);
    lemma_term_facts(p, 0);
    assert(bm_discrepancy(unit_poly(), syn, 0, 0) == a);
    lemma_div_one(a);
    galois::lemma_mul_identity(a, 1);
    galois::lemma_mul_identity(a, 0);
    crate::p25::bitwise::lemma_xor_u8(a, 0, 0);
    crate::p25::bitwise::lemma_xor_u8(0, 0, 0);
    let adj = bm_adjust(unit_poly(), unit_poly(), galois::gf_div(a, 1), 1);
    assert forall|i: int| 0 <= i < 12 implies #[trigger] adj[i] == single_locator(a)[i] by {
        if i == 1 {
            assert(unit_poly()[0] == 1u8);
        } else if i >= 2 {
            assert(unit_poly()[i - 1] == 0u8);
            assert(unit_poly()[i] == 0u8);
        }
    }
    assert(adj =~= single_locator(a));
}

/// Every later Berlekamp-Massey step on those syndromes meets a zero
/// discrepancy: each syndrome is the previous one times alpha^p.
proof fn lemma_bm_single_later(p: nat, m: nat, shift: nat)
    requires
        p < 63,
        1 <= m < 22,
    ensures
        bm_step(
            (single_locator(bit_term(p, 0)), unit_poly(), 1nat, bit_term(p, 0), shift),
            single_syndromes(p),
            m,
        ) == Some((single_locator(bit_term(p, 0)), unit_poly(), 1nat, bit_term(p, 0), shift + 1)),
{
    let syn = single_syndromes(p);
    let a = bit_term(p, 0);
    lemma_term_facts(p, m);
    let sm = bit_term(p, m);
    assert(syn[m as int] == sm);
    assert(syn[m - 1] == bit_term(p, (m - 1) as nat));
    assert(single_locator(a)[1] == a);
    reveal_with_fuel(bm_discrepancy, 2);
    assert(bm_discrepancy(single_locator(a), syn, m as int, 1) == syn[m as int] ^ galois::gf_mul(a, syn[m - 1]));
    crate::p25::bitwise::lemma_xor_u8(sm, sm, 0);
}

/// Berlekamp-Massey on the syndromes of a single error at bit `p`: the
/// first syndrome sets the locator to 1 + alpha^p x with length one, and
/// every later discrepancy vanishes.
proof fn lemma_bm_single(p: nat, n: nat)
    requires
        p < 63,
        1 <= n <= 22,
    ensures
        bm_run(single_syndromes(p), n) == Some(
            (single_locator(bit_term(p, 0)), unit_poly(), 1nat, bit_term(p, 0), n),
        ),
    decreases n,
{
    if n == 1 {
        lemma_bm_single_first(p);
    } else {
        let m = (n - 1) as nat;
        lemma_bm_single(p, m);
        lemma_bm_single_later(p, m, m);
    }
}

/// One plus a field element vanishes only for the element one; flipping
/// the same bits twice restores a word.
proof fn lemma_xor_back(v: u8, x: u64, y: u64)
    by (bit_vector)
    ensures
        1u8 ^ v == 0 <==> v == 1,
        (x ^ y) ^ y == x,
{
}

/// The locator 1 + alpha^p x vanishes at alpha^i, for i below 63, exactly
/// when i = (63 - p) mod 63.
proof fn lemma_chien_single_value(p: nat, i: nat)
    requires
        p < 63,
        i < 63,
    ensures
        chien_value(single_locator(bit_term(p, 0)), i, 1) == 0 <==> i == (63 - p) % 63,
{
    let a = bit_term(p, 0);
    lemma_term_facts(p, 0);
    assert(i * 1 == i);
    assert(i % 63 == i);
    lemma_mul_powers(p, i);
    let k = (p + i) % 63;
    lemma_exp_one(k);
    lemma_exp_bound(k);
    let v = gf_exp(k) as u8;
    lemma_xor_back(v, 0, 0);
    assert(single_locator(a)[0] == 1u8);
    assert(single_locator(a)[1] == a);
    reveal_with_fuel(chien_value, 2);
    assert(chien_value(single_locator(a), i, 1) == 1u8 ^ galois::gf_mul(a, gf_exp(i) as u8));
}

/// Chien search on 1 + alpha^p x finds the single position `p`, once the
/// search has passed its root.
proof fn lemma_chien_single(p: nat, n: nat)
    requires
        p < 63,
        n <= 63,
    ensures
        chien_roots(single_locator(bit_term(p, 0)), 1, n) == if n > (63 - p) % 63 {
            seq![p as usize]
        } else {
            Seq::<usize>::empty()
        },
    decreases n,
{
    if n > 0 {
        let i = (n - 1) as nat;
        lemma_chien_single(p, i);
        lemma_chien_single_value(p, i);
        if i == (63 - p) % 63 {
            assert(((63 - i) % 63) as usize == p as usize);
            assert(Seq::<usize>::empty().push(p as usize) =~= seq![p as usize]);
        }
    }
}

/// Decoding corrects every single-bit error: a codeword with one of its
/// 63 bits flipped decodes to the codeword, with one error corrected.
pub proof fn lemma_corrects_single(c: u64, p: u64)
    requires
        is_codeword(c),
        c < 0x8000_0000_0000_0000,
        p < 63,
    ensures
        bch_decoded(c ^ (1u64 << p)) == Some(BchResult { corrected: c, errors_corrected: 1 }),
{
    let m = 1u64 << p;
    let w = c ^ m;
    crate::p25::bitwise::lemma_bit_u64(c, 0, p);
    assert(w < 0x8000_0000_0000_0000);
    assert(low_bits(w) == w);
    let pn = p as nat;
    assert forall|j: nat| j < 22 implies #[trigger] syndrome(w, j) == bit_term(pn, j) by {
        lemma_flip_syndrome(c, p, j, 63);
        assert(syndrome(c, j) == 0);
        lemma_term_facts(pn, j);
        crate::p25::bitwise::lemma_xor_u8(bit_term(pn, j), 0, 0);
    }
    assert(syndromes_of(w) =~= single_syndromes(pn));
    lemma_term_facts(pn, 0);
    assert(syndrome(w, 0) != 0);
    assert(!is_codeword(w));
    lemma_bm_single(pn, 22);
    let a = bit_term(pn, 0);
    assert(locator(syndromes_of(w)) == Some((1usize, single_locator(a))));
    lemma_chien_single(pn, 63);
    let pos = chien_roots(single_locator(a), 1, 63);
    assert(pos == seq![p as usize]);
    assert(pos.drop_last() =~= Seq::<usize>::empty());
    assert(((p as usize) as u64) == p);
    lemma_xor_back(0, c, m);
    reveal_with_fuel(flip_positions, 2);
    assert(pos.last() as u64 == p);
    assert(flip_positions(w, pos) == c);
}

// ---------------------------------------------------------------------------
// Encoding gives codewords.
// ---------------------------------------------------------------------------

/// Syndrome `j` of the bits of `x` below `n`, over the written-out powers.
pub open spec fn flat_syndrome(x: u64, j: u32, n: u32) -> u8
    decreases n,
{
    if n == 0 {
        0
    } else {
        flat_syndrome(x, j, (n - 1) as u32) ^ (if (x >> ((n - 1) as u64)) & 1u64 == 1u64 {
            alpha_power((((n - 1) * (j + 1)) % 63) as u32)
        } else {
            0u8
        })
    }
}


/// Bit and exclusive-or facts for the encoding proof: a bit of an
/// exclusive or; group laws of exclusive or; one division step clears the
/// bit it works on; the remainder joins the data bits without overlap.
proof fn lemma_code_words(x: u64, y: u64, z: u64, b: u64, k: u64, s: u64, d: u64, r: u64)
    by (bit_vector)
    ensures
        b < 64 ==> ((((x ^ y) >> b) & 1u64 == 1u64) <==> (((x >> b) & 1u64 == 1u64) != ((y >> b) & 1u64 == 1u64))),
        b < 64 ==> ((x >> b) & 1u64 == 0u64 || (x >> b) & 1u64 == 1u64),
        (0u64 >> b) & 1u64 == 0u64,
        (x ^ y) ^ (y ^ z) == x ^ z,
        x ^ (x ^ y) == y,
        x ^ x == 0,
        (47 <= k <= 62 && s + 47 == k && x >> (k + 1u64) == 0) ==> (if (x >> k) & 1u64 == 1u64 {
            x ^ (0xCD930BDD3B2Bu64 << s)
        } else {
            x
        }) >> k == 0,
        (d < 0x1_0000 && r >> 47u64 == 0) ==> (d << 47u64) | (r & 0x7FFF_FFFF_FFFFu64) == (d << 47u64) ^ r,
        d < 0x1_0000 ==> (d << 47u64) >> 63u64 == 0,
        d < 0x1_0000 ==> ((d << 47u64) | (r & 0x7FFF_FFFF_FFFFu64)) < 0x8000_0000_0000_0000u64,
        d < 0x1_0000 ==> (((d << 47u64) | (r & 0x7FFF_FFFF_FFFFu64)) >> 47u64) & 0xFFFFu64 == d,
        d < 0x1_0000 ==> ((d << 47u64) | (r & 0x7FFF_FFFF_FFFFu64)) >> 47u64 == d,
        d < 0x1_0000 ==> ((d << 47u64) | (r & 0x7FFF_FFFF_FFFFu64)) % 0x8000_0000_0000_0000u64 == (d
            << 47u64) | (r & 0x7FFF_FFFF_FFFFu64),
{
}

/// The written-out syndrome agrees with the syndrome of the model.
proof fn lemma_flat_syndrome(x: u64, j: u32, n: u32)
    requires
        j < 22,
        n <= 63,
    ensures
        word_syndrome(x, j as nat, n as nat) == flat_syndrome(x, j, n),
    decreases n,
{
    if n > 0 {
        lemma_flat_syndrome(x, j, (n - 1) as u32);
        let k = (((n - 1) * (j + 1)) % 63) as u32;
        lemma_alpha_power(k);
        let s = flat_syndrome(x, j, (n - 1) as u32);
        crate::p25::bitwise::lemma_xor_u8(s, 0, 0);
        assert(((n - 1) as nat) as u64 == (n - 1) as u64);
        assert((((n - 1) as nat) * ((j as nat) + 1)) % 63 == k as nat);
    }
}

/// Syndromes are linear: the syndrome of an exclusive or is the exclusive
/// or of the syndromes.
proof fn lemma_syndrome_xor(x: u64, y: u64, j: nat, n: nat)
    requires
        n <= 63,
    ensures
        word_syndrome(x ^ y, j, n) == word_syndrome(x, j, n) ^ word_syndrome(y, j, n),
    decreases n,
{
    if n > 0 {
        let m = (n - 1) as nat;
        lemma_syndrome_xor(x, y, j, m);
        lemma_code_words(x, y, 0, m as u64, 0, 0, 0, 0);
        lemma_code_words(y, x, 0, m as u64, 0, 0, 0, 0);
        let a = word_syndrome(x, j, m);
        let c = word_syndrome(y, j, m);
        let t = gf_exp((m * (j + 1)) % 63) as u8;
        crate::p25::bitwise::lemma_xor_u8(a, c, t);
        crate::p25::bitwise::lemma_xor_u8(a ^ c, t, 0);
        crate::p25::bitwise::lemma_xor_u8(a, t, c);
        crate::p25::bitwise::lemma_xor_u8(t, c, 0);
        crate::p25::bitwise::lemma_xor_u8(c, t, 0);
        crate::p25::bitwise::lemma_xor_u8(a, c ^ t, 0);
        crate::p25::bitwise::lemma_xor_u8(a ^ t, c, t);
        crate::p25::bitwise::lemma_xor_u8(c, a, t);
        crate::p25::bitwise::lemma_xor_u8(t, t, a ^ c);
        crate::p25::bitwise::lemma_xor_u8(a ^ c, t, t);
        crate::p25::bitwise::lemma_xor_u8(a, t, t);
        let mb = m as u64;
        assert(bit_of(x ^ y, m) == (bit_of(x, m) != bit_of(y, m))) by {
            assert(mb < 64);
            assert(bit_of(x ^ y, m) == (((x ^ y) >> mb) & 1u64 == 1u64));
        }
        assert(word_syndrome(x ^ y, j, n) == if bit_of(x ^ y, m) { (a ^ c) ^ t } else { a ^ c });
        assert(word_syndrome(x, j, n) == if bit_of(x, m) { a ^ t } else { a });
        assert(word_syndrome(y, j, n) == if bit_of(y, m) { c ^ t } else { c });
        assert((a ^ t) ^ (c ^ t) == a ^ c);
        assert((a ^ t) ^ c == (a ^ c) ^ t);
        assert(a ^ (c ^ t) == (a ^ c) ^ t);
        assert((m as u64) as nat == m);
    } else {
        crate::p25::bitwise::lemma_xor_u8(0, 0, 0);
    }
}

/// The zero word has vanishing syndromes.
proof fn lemma_syndrome_zero(j: nat, n: nat)
    requires
        n <= 63,
    ensures
        word_syndrome(0, j, n) == 0,
    decreases n,
{
    if n > 0 {
        lemma_syndrome_zero(j, (n - 1) as nat);
        lemma_code_words(0, 0, 0, (n - 1) as u64, 0, 0, 0, 0);
        assert(((n - 1) as nat) as u64 == (n - 1) as u64);
    }
}

/// Codewords are closed under exclusive or, and zero is one.
pub proof fn lemma_codeword_xor(x: u64, y: u64)
    ensures
        is_codeword(0),
        is_codeword(x) && is_codeword(y) ==> is_codeword(x ^ y),
{
    assert forall|j: nat| j < 22 implies #[trigger] syndrome(0, j) == 0 by {
        lemma_syndrome_zero(j, 63);
    }
    if is_codeword(x) && is_codeword(y) {
        assert forall|j: nat| j < 22 implies #[trigger] syndrome(x ^ y, j) == 0 by {
            lemma_syndrome_xor(x, y, j, 63);
            assert(syndrome(x, j) == 0 && syndrome(y, j) == 0);
            crate::p25::bitwise::lemma_xor_u8(0, 0, 0);
        }
    }
}


/// The generator shifted up by fewer than 16 places has vanishing
/// syndromes: g(x) x^s is a multiple of g(x).
proof fn lemma_generator_table()
    by (bit_vector)
    ensures
        flat_syndrome(0xCD930BDD3B2Bu64 << 0u64, 0, 63) == 0,
        flat_syndrome(0xCD930BDD3B2Bu64 << 0u64, 1, 63) == 0,
        flat_syndrome(0xCD930BDD3B2Bu64 << 0u64, 2, 63) == 0,
        flat_syndrome(0xCD930BDD3B2Bu64 << 0u64, 3, 63) == 0,
        flat_syndrome(0xCD930BDD3B2Bu64 << 0u64, 4, 63) == 0,
        flat_syndrome(0xCD930BDD3B2Bu64 << 0u64, 5, 63) == 0,
        flat_syndrome(0xCD930BDD3B2Bu64 << 0u64, 6, 63) == 0,
        flat_syndrome(0xCD930BDD3B2Bu64 << 0u64, 7, 63) == 0,
        flat_syndrome(0xCD930BDD3B2Bu64 << 0u64, 8, 63) == 0,
        flat_syndrome(0xCD930BDD3B2Bu64 << 0u64, 9, 63) == 0,
        flat_syndrome(0xCD930BDD3B2Bu64 << 0u64, 10, 63) == 0,
        flat_syndrome(0xCD930BDD3B2Bu64 << 0u64, 11, 63) == 0,
        flat_syndrome(0xCD930BDD3B2Bu64 << 0u64, 12, 63) == 0,
        flat_syndrome(0xCD930BDD3B2Bu64 << 0u64, 13, 63) == 0,
        flat_syndrome(0xCD930BDD3B2Bu64 << 0u64, 14, 63) == 0,
        flat_syndrome(0xCD930BDD3B2Bu64 << 0u64, 15, 63) == 0,
        flat_syndrome(0xCD930BDD3B2Bu64 << 0u64, 16, 63) == 0,
        flat_syndrome(0xCD930BDD3B2Bu64 << 0u64, 17, 63) == 0,
        flat_syndrome(0xCD930BDD3B2Bu64 << 0u64, 18, 63) == 0,
        flat_syndrome(0xCD930BDD3B2Bu64 << 0u64, 19, 63) == 0,
        flat_syndrome(0xCD930BDD3B2Bu64 << 0u64, 20, 63) == 0,
        flat_syndrome(0xCD930BDD3B2Bu64 << 0u64, 21, 63) == 0,
        flat_syndrome(0xCD930BDD3B2Bu64 << 1u64, 0, 63) == 0,
        flat_syndrome(0xCD930BDD3B2Bu64 << 1u64, 1, 63) == 0,
        flat_syndrome(0xCD930BDD3B2Bu64 << 1u64, 2, 63) == 0,
        flat_syndrome(0xCD930BDD3B2Bu64 << 1u64, 3, 63) == 0,
        flat_syndrome(0xCD930BDD3B2Bu64 << 1u64, 4, 63) == 0,
        flat_syndrome(0xCD930BDD3B2Bu64 << 1u64, 5, 63) == 0,
        flat_syndrome(0xCD930BDD3B2Bu64 << 1u64, 6, 63) == 0,
        flat_syndrome(0xCD930BDD3B2Bu64 << 1u64, 7, 63) == 0,
        flat_syndrome(0xCD930BDD3B2Bu64 << 1u64, 8, 63) == 0,
        flat_syndrome(0xCD930BDD3B2Bu64 << 1u64, 9, 63) == 0,
        flat_syndrome(0xCD930BDD3B2Bu64 << 1u64, 10, 63) == 0,
        flat_syndrome(0xCD930BDD3B2Bu64 << 1u64, 11, 63) == 0,
        flat_syndrome(0xCD930BDD3B2Bu64 << 1u64, 12, 63) == 0,
        flat_syndrome(0xCD930BDD3B2Bu64 << 1u64, 13, 63) == 0,
        flat_syndrome(0xCD930BDD3B2Bu64 << 1u64, 14, 63) == 0,
        flat_syndrome(0xCD930BDD3B2Bu64 << 1u64, 15, 63) == 0,
        flat_syndrome(0xCD930BDD3B2Bu64 << 1u64, 16, 63) == 0,
        flat_syndrome(0xCD930BDD3B2Bu64 << 1u64, 17, 63) == 0,
        flat_syndrome(0xCD930BDD3B2Bu64 << 1u64, 18, 63) == 0,
        flat_syndrome(0xCD930BDD3B2Bu64 << 1u64, 19, 63) == 0,
        flat_syndrome(0xCD930BDD3B2Bu64 << 1u64, 20, 63) == 0,
        flat_syndrome(0xCD930BDD3B2Bu64 << 1u64, 21, 63) == 0,
        flat_syndrome(0xCD930BDD3B2Bu64 << 2u64, 0, 63) == 0,
        flat_syndrome(0xCD930BDD3B2Bu64 << 2u64, 1, 63) == 0,
        flat_syndrome(0xCD930BDD3B2Bu64 << 2u64, 2, 63) == 0,
        flat_syndrome(0xCD930BDD3B2Bu64 << 2u64, 3, 63) == 0,
        flat_syndrome(0xCD930BDD3B2Bu64 << 2u64, 4, 63) == 0,
        flat_syndrome(0xCD930BDD3B2Bu64 << 2u64, 5, 63) == 0,
        flat_syndrome(0xCD930BDD3B2Bu64 << 2u64, 6, 63) == 0,
        flat_syndrome(0xCD930BDD3B2Bu64 << 2u64, 7, 63) == 0,
        flat_syndrome(0xCD930BDD3B2Bu64 << 2u64, 8, 63) == 0,
        flat_syndrome(0xCD930BDD3B2Bu64 << 2u64, 9, 63) == 0,
        flat_syndrome(0xCD930BDD3B2Bu64 << 2u64, 10, 63) == 0,
        flat_syndrome(0xCD930BDD3B2Bu64 << 2u64, 11, 63) == 0,
        flat_syndrome(0xCD930BDD3B2Bu64 << 2u64, 12, 63) == 0,
        flat_syndrome(0xCD930BDD3B2Bu64 << 2u64, 13, 63) == 0,
        flat_syndrome(0xCD930BDD3B2Bu64 << 2u64, 14, 63) == 0,
        flat_syndrome(0xCD930BDD3B2Bu64 << 2u64, 15, 63) == 0,
        flat_syndrome(0xCD930BDD3B2Bu64 << 2u64, 16, 63) == 0,
        flat_syndrome(0xCD930BDD3B2Bu64 << 2u64, 17, 63) == 0,
        flat_syndrome(0xCD930BDD3B2Bu64 << 2u64, 18, 63) == 0,
        flat_syndrome(0xCD930BDD3B2Bu64 << 2u64, 19, 63) == 0,
        flat_syndrome(0xCD930BDD3B2Bu64 << 2u64, 20, 63) == 0,
        flat_syndrome(0xCD930BDD3B2Bu64 << 2u64, 21, 63) == 0,
        flat_syndrome(0xCD930BDD3B2Bu64 << 3u64, 0, 63) == 0,
        flat_syndrome(0xCD930BDD3B2Bu64 << 3u64, 1, 63) == 0,
        flat_syndrome(0xCD930BDD3B2Bu64 << 3u64, 2, 63) == 0,
        flat_syndrome(0xCD930BDD3B2Bu64 << 3u64, 3, 63) == 0,
        flat_syndrome(0xCD930BDD3B2Bu64 << 3u64, 4, 63) == 0,
        flat_syndrome(0xCD930BDD3B2Bu64 << 3u64, 5, 63) == 0,
        flat_syndrome(0xCD930BDD3B2Bu64 << 3u64, 6, 63) == 0,
        flat_syndrome(0xCD930BDD3B2Bu64 << 3u64, 7, 63) == 0,
        flat_syndrome(0xCD930BDD3B2Bu64 << 3u64, 8, 63) == 0,
        flat_syndrome(0xCD930BDD3B2Bu64 << 3u64, 9, 63) == 0,
        flat_syndrome(0xCD930BDD3B2Bu64 << 3u64, 10, 63) == 0,
        flat_syndrome(0xCD930BDD3B2Bu64 << 3u64, 11, 63) == 0,
        flat_syndrome(0xCD930BDD3B2Bu64 << 3u64, 12, 63) == 0,
        flat_syndrome(0xCD930BDD3B2Bu64 << 3u64, 13, 63) == 0,
        flat_syndrome(0xCD930BDD3B2Bu64 << 3u64, 14, 63) == 0,
        flat_syndrome(0xCD930BDD3B2Bu64 << 3u64, 15, 63) == 0,
        flat_syndrome(0xCD930BDD3B2Bu64 << 3u64, 16, 63) == 0,
        flat_syndrome(0xCD930BDD3B2Bu64 << 3u64, 17, 63) == 0,
        flat_syndrome(0xCD930BDD3B2Bu64 << 3u64, 18, 63) == 0,
        flat_syndrome(0xCD930BDD3B2Bu64 << 3u64, 19, 63) == 0,
        flat_syndrome(0xCD930BDD3B2Bu64 << 3u64, 20, 63) == 0,
        flat_syndrome(0xCD930BDD3B2Bu64 << 3u64, 21, 63) == 0,
        flat_syndrome(0xCD930BDD3B2Bu64 << 4u64, 0, 63) == 0,
        flat_syndrome(0xCD930BDD3B2Bu64 << 4u64, 1, 63) == 0,
        flat_syndrome(0xCD930BDD3B2Bu64 << 4u64, 2, 63) == 0,
        flat_syndrome(0xCD930BDD3B2Bu64 << 4u64, 3, 63) == 0,
        flat_syndrome(0xCD930BDD3B2Bu64 << 4u64, 4, 63) == 0,
        flat_syndrome(0xCD930BDD3B2Bu64 << 4u64, 5, 63) == 0,
        flat_syndrome(0xCD930BDD3B2Bu64 << 4u64, 6, 63) == 0,
        flat_syndrome(0xCD930BDD3B2Bu64 << 4u64, 7, 63) == 0,
        flat_syndrome(0xCD930BDD3B2Bu64 << 4u64, 8, 63) == 0,
        flat_syndrome(0xCD930BDD3B2Bu64 << 4u64, 9, 63) == 0,
        flat_syndrome(0xCD930BDD3B2Bu64 << 4u64, 10, 63) == 0,
        flat_syndrome(0xCD930BDD3B2Bu64 << 4u64, 11, 63) == 0,
        flat_syndrome(0xCD930BDD3B2Bu64 << 4u64, 12, 63) == 0,
        flat_syndrome(0xCD930BDD3B2Bu64 << 4u64, 13, 63) == 0,
        flat_syndrome(0xCD930BDD3B2Bu64 << 4u64, 14, 63) == 0,
        flat_syndrome(0xCD930BDD3B2Bu64 << 4u64, 15, 63) == 0,
        flat_syndrome(0xCD930BDD3B2Bu64 << 4u64, 16, 63) == 0,
        flat_syndrome(0xCD930BDD3B2Bu64 << 4u64, 17, 63) == 0,
        flat_syndrome(0xCD930BDD3B2Bu64 << 4u64, 18, 63) == 0,
        flat_syndrome(0xCD930BDD3B2Bu64 << 4u64, 19, 63) == 0,
        flat_syndrome(0xCD930BDD3B2Bu64 << 4u64, 20, 63) == 0,
        flat_syndrome(0xCD930BDD3B2Bu64 << 4u64, 21, 63) == 0,
        flat_syndrome(0xCD930BDD3B2Bu64 << 5u64, 0, 63) == 0,
        flat_syndrome(0xCD930BDD3B2Bu64 << 5u64, 1, 63) == 0,
        flat_syndrome(0xCD930BDD3B2Bu64 << 5u64, 2, 63) == 0,
        flat_syndrome(0xCD930BDD3B2Bu64 << 5u64, 3, 63) == 0,
        flat_syndrome(0xCD930BDD3B2Bu64 << 5u64, 4, 63) == 0,
        flat_syndrome(0xCD930BDD3B2Bu64 << 5u64, 5, 63) == 0,
        flat_syndrome(0xCD930BDD3B2Bu64 << 5u64, 6, 63) == 0,
        flat_syndrome(0xCD930BDD3B2Bu64 << 5u64, 7, 63) == 0,
        flat_syndrome(0xCD930BDD3B2Bu64 << 5u64, 8, 63) == 0,
        flat_syndrome(0xCD930BDD3B2Bu64 << 5u64, 9, 63) == 0,
        flat_syndrome(0xCD930BDD3B2Bu64 << 5u64, 10, 63) == 0,
        flat_syndrome(0xCD930BDD3B2Bu64 << 5u64, 11, 63) == 0,
        flat_syndrome(0xCD930BDD3B2Bu64 << 5u64, 12, 63) == 0,
        flat_syndrome(0xCD930BDD3B2Bu64 << 5u64, 13, 63) == 0,
        flat_syndrome(0xCD930BDD3B2Bu64 << 5u64, 14, 63) == 0,
        flat_syndrome(0xCD930BDD3B2Bu64 << 5u64, 15, 63) == 0,
        flat_syndrome(0xCD930BDD3B2Bu64 << 5u64, 16, 63) == 0,
        flat_syndrome(0xCD930BDD3B2Bu64 << 5u64, 17, 63) == 0,
        flat_syndrome(0xCD930BDD3B2Bu64 << 5u64, 18, 63) == 0,
        flat_syndrome(0xCD930BDD3B2Bu64 << 5u64, 19, 63) == 0,
        flat_syndrome(0xCD930BDD3B2Bu64 << 5u64, 20, 63) == 0,
        flat_syndrome(0xCD930BDD3B2Bu64 << 5u64, 21, 63) == 0,
        flat_syndrome(0xCD930BDD3B2Bu64 << 6u64, 0, 63) == 0,
        flat_syndrome(0xCD930BDD3B2Bu64 << 6u64, 1, 63) == 0,
        flat_syndrome(0xCD930BDD3B2Bu64 << 6u64, 2, 63) == 0,
        flat_syndrome(0xCD930BDD3B2Bu64 << 6u64, 3, 63) == 0,
        flat_syndrome(0xCD930BDD3B2Bu64 << 6u64, 4, 63) == 0,
        flat_syndrome(0xCD930BDD3B2Bu64 << 6u64, 5, 63) == 0,
        flat_syndrome(0xCD930BDD3B2Bu64 << 6u64, 6, 63) == 0,
        flat_syndrome(0xCD930BDD3B2Bu64 << 6u64, 7, 63) == 0,
        flat_syndrome(0xCD930BDD3B2Bu64 << 6u64, 8, 63) == 0,
        flat_syndrome(0xCD930BDD3B2Bu64 << 6u64, 9, 63) == 0,
        flat_syndrome(0xCD930BDD3B2Bu64 << 6u64, 10, 63) == 0,
        flat_syndrome(0xCD930BDD3B2Bu64 << 6u64, 11, 63) == 0,
        flat_syndrome(0xCD930BDD3B2Bu64 << 6u64, 12, 63) == 0,
        flat_syndrome(0xCD930BDD3B2Bu64 << 6u64, 13, 63) == 0,
        flat_syndrome(0xCD930BDD3B2Bu64 << 6u64, 14, 63) == 0,
        flat_syndrome(0xCD930BDD3B2Bu64 << 6u64, 15, 63) == 0,
        flat_syndrome(0xCD930BDD3B2Bu64 << 6u64, 16, 63) == 0,
        flat_syndrome(0xCD930BDD3B2Bu64 << 6u64, 17, 63) == 0,
        flat_syndrome(0xCD930BDD3B2Bu64 << 6u64, 18, 63) == 0,
        flat_syndrome(0xCD930BDD3B2Bu64 << 6u64, 19, 63) == 0,
        flat_syndrome(0xCD930BDD3B2Bu64 << 6u64, 20, 63) == 0,
        flat_syndrome(0xCD930BDD3B2Bu64 << 6u64, 21, 63) == 0,
        flat_syndrome(0xCD930BDD3B2Bu64 << 7u64, 0, 63) == 0,
        flat_syndrome(0xCD930BDD3B2Bu64 << 7u64, 1, 63) == 0,
        flat_syndrome(0xCD930BDD3B2Bu64 << 7u64, 2, 63) == 0,
        flat_syndrome(0xCD930BDD3B2Bu64 << 7u64, 3, 63) == 0,
        flat_syndrome(0xCD930BDD3B2Bu64 << 7u64, 4, 63) == 0,
        flat_syndrome(0xCD930BDD3B2Bu64 << 7u64, 5, 63) == 0,
        flat_syndrome(0xCD930BDD3B2Bu64 << 7u64, 6, 63) == 0,
        flat_syndrome(0xCD930BDD3B2Bu64 << 7u64, 7, 63) == 0,
        flat_syndrome(0xCD930BDD3B2Bu64 << 7u64, 8, 63) == 0,
        flat_syndrome(0xCD930BDD3B2Bu64 << 7u64, 9, 63) == 0,
        flat_syndrome(0xCD930BDD3B2Bu64 << 7u64, 10, 63) == 0,
        flat_syndrome(0xCD930BDD3B2Bu64 << 7u64, 11, 63) == 0,
        flat_syndrome(0xCD930BDD3B2Bu64 << 7u64, 12, 63) == 0,
        flat_syndrome(0xCD930BDD3B2Bu64 << 7u64, 13, 63) == 0,
        flat_syndrome(0xCD930BDD3B2Bu64 << 7u64, 14, 63) == 0,
        flat_syndrome(0xCD930BDD3B2Bu64 << 7u64, 15, 63) == 0,
        flat_syndrome(0xCD930BDD3B2Bu64 << 7u64, 16, 63) == 0,
        flat_syndrome(0xCD930BDD3B2Bu64 << 7u64, 17, 63) == 0,
        flat_syndrome(0xCD930BDD3B2Bu64 << 7u64, 18, 63) == 0,
        flat_syndrome(0xCD930BDD3B2Bu64 << 7u64, 19, 63) == 0,
        flat_syndrome(0xCD930BDD3B2Bu64 << 7u64, 20, 63) == 0,
        flat_syndrome(0xCD930BDD3B2Bu64 << 7u64, 21, 63) == 0,
        flat_syndrome(0xCD930BDD3B2Bu64 << 8u64, 0, 63) == 0,
        flat_syndrome(0xCD930BDD3B2Bu64 << 8u64, 1, 63) == 0,
        flat_syndrome(0xCD930BDD3B2Bu64 << 8u64, 2, 63) == 0,
        flat_syndrome(0xCD930BDD3B2Bu64 << 8u64, 3, 63) == 0,
        flat_syndrome(0xCD930BDD3B2Bu64 << 8u64, 4, 63) == 0,
        flat_syndrome(0xCD930BDD3B2Bu64 << 8u64, 5, 63) == 0,
        flat_syndrome(0xCD930BDD3B2Bu64 << 8u64, 6, 63) == 0,
        flat_syndrome(0xCD930BDD3B2Bu64 << 8u64, 7, 63) == 0,
        flat_syndrome(0xCD930BDD3B2Bu64 << 8u64, 8, 63) == 0,
        flat_syndrome(0xCD930BDD3B2Bu64 << 8u64, 9, 63) == 0,
        flat_syndrome(0xCD930BDD3B2Bu64 << 8u64, 10, 63) == 0,
        flat_syndrome(0xCD930BDD3B2Bu64 << 8u64, 11, 63) == 0,
        flat_syndrome(0xCD930BDD3B2Bu64 << 8u64, 12, 63) == 0,
        flat_syndrome(0xCD930BDD3B2Bu64 << 8u64, 13, 63) == 0,
        flat_syndrome(0xCD930BDD3B2Bu64 << 8u64, 14, 63) == 0,
        flat_syndrome(0xCD930BDD3B2Bu64 << 8u64, 15, 63) == 0,
        flat_syndrome(0xCD930BDD3B2Bu64 << 8u64, 16, 63) == 0,
        flat_syndrome(0xCD930BDD3B2Bu64 << 8u64, 17, 63) == 0,
        flat_syndrome(0xCD930BDD3B2Bu64 << 8u64, 18, 63) == 0,
        flat_syndrome(0xCD930BDD3B2Bu64 << 8u64, 19, 63) == 0,
        flat_syndrome(0xCD930BDD3B2Bu64 << 8u64, 20, 63) == 0,
        flat_syndrome(0xCD930BDD3B2Bu64 << 8u64, 21, 63) == 0,
        flat_syndrome(0xCD930BDD3B2Bu64 << 9u64, 0, 63) == 0,
        flat_syndrome(0xCD930BDD3B2Bu64 << 9u64, 1, 63) == 0,
        flat_syndrome(0xCD930BDD3B2Bu64 << 9u64, 2, 63) == 0,
        flat_syndrome(0xCD930BDD3B2Bu64 << 9u64, 3, 63) == 0,
        flat_syndrome(0xCD930BDD3B2Bu64 << 9u64, 4, 63) == 0,
        flat_syndrome(0xCD930BDD3B2Bu64 << 9u64, 5, 63) == 0,
        flat_syndrome(0xCD930BDD3B2Bu64 << 9u64, 6, 63) == 0,
        flat_syndrome(0xCD930BDD3B2Bu64 << 9u64, 7, 63) == 0,
        flat_syndrome(0xCD930BDD3B2Bu64 << 9u64, 8, 63) == 0,
        flat_syndrome(0xCD930BDD3B2Bu64 << 9u64, 9, 63) == 0,
        flat_syndrome(0xCD930BDD3B2Bu64 << 9u64, 10, 63) == 0,
        flat_syndrome(0xCD930BDD3B2Bu64 << 9u64, 11, 63) == 0,
        flat_syndrome(0xCD930BDD3B2Bu64 << 9u64, 12, 63) == 0,
        flat_syndrome(0xCD930BDD3B2Bu64 << 9u64, 13, 63) == 0,
        flat_syndrome(0xCD930BDD3B2Bu64 << 9u64, 14, 63) == 0,
        flat_syndrome(0xCD930BDD3B2Bu64 << 9u64, 15, 63) == 0,
        flat_syndrome(0xCD930BDD3B2Bu64 << 9u64, 16, 63) == 0,
        flat_syndrome(0xCD930BDD3B2Bu64 << 9u64, 17, 63) == 0,
        flat_syndrome(0xCD930BDD3B2Bu64 << 9u64, 18, 63) == 0,
        flat_syndrome(0xCD930BDD3B2Bu64 << 9u64, 19, 63) == 0,
        flat_syndrome(0xCD930BDD3B2Bu64 << 9u64, 20, 63) == 0,
        flat_syndrome(0xCD930BDD3B2Bu64 << 9u64, 21, 63) == 0,
        flat_syndrome(0xCD930BDD3B2Bu64 << 10u64, 0, 63) == 0,
        flat_syndrome(0xCD930BDD3B2Bu64 << 10u64, 1, 63) == 0,
        flat_syndrome(0xCD930BDD3B2Bu64 << 10u64, 2, 63) == 0,
        flat_syndrome(0xCD930BDD3B2Bu64 << 10u64, 3, 63) == 0,
        flat_syndrome(0xCD930BDD3B2Bu64 << 10u64, 4, 63) == 0,
        flat_syndrome(0xCD930BDD3B2Bu64 << 10u64, 5, 63) == 0,
        flat_syndrome(0xCD930BDD3B2Bu64 << 10u64, 6, 63) == 0,
        flat_syndrome(0xCD930BDD3B2Bu64 << 10u64, 7, 63) == 0,
        flat_syndrome(0xCD930BDD3B2Bu64 << 10u64, 8, 63) == 0,
        flat_syndrome(0xCD930BDD3B2Bu64 << 10u64, 9, 63) == 0,
        flat_syndrome(0xCD930BDD3B2Bu64 << 10u64, 10, 63) == 0,
        flat_syndrome(0xCD930BDD3B2Bu64 << 10u64, 11, 63) == 0,
        flat_syndrome(0xCD930BDD3B2Bu64 << 10u64, 12, 63) == 0,
        flat_syndrome(0xCD930BDD3B2Bu64 << 10u64, 13, 63) == 0,
        flat_syndrome(0xCD930BDD3B2Bu64 << 10u64, 14, 63) == 0,
        flat_syndrome(0xCD930BDD3B2Bu64 << 10u64, 15, 63) == 0,
        flat_syndrome(0xCD930BDD3B2Bu64 << 10u64, 16, 63) == 0,
        flat_syndrome(0xCD930BDD3B2Bu64 << 10u64, 17, 63) == 0,
        flat_syndrome(0xCD930BDD3B2Bu64 << 10u64, 18, 63) == 0,
        flat_syndrome(0xCD930BDD3B2Bu64 << 10u64, 19, 63) == 0,
        flat_syndrome(0xCD930BDD3B2Bu64 << 10u64, 20, 63) == 0,
        flat_syndrome(0xCD930BDD3B2Bu64 << 10u64, 21, 63) == 0,
        flat_syndrome(0xCD930BDD3B2Bu64 << 11u64, 0, 63) == 0,
        flat_syndrome(0xCD930BDD3B2Bu64 << 11u64, 1, 63) == 0,
        flat_syndrome(0xCD930BDD3B2Bu64 << 11u64, 2, 63) == 0,
        flat_syndrome(0xCD930BDD3B2Bu64 << 11u64, 3, 63) == 0,
        flat_syndrome(0xCD930BDD3B2Bu64 << 11u64, 4, 63) == 0,
        flat_syndrome(0xCD930BDD3B2Bu64 << 11u64, 5, 63) == 0,
        flat_syndrome(0xCD930BDD3B2Bu64 << 11u64, 6, 63) == 0,
        flat_syndrome(0xCD930BDD3B2Bu64 << 11u64, 7, 63) == 0,
        flat_syndrome(0xCD930BDD3B2Bu64 << 11u64, 8, 63) == 0,
        flat_syndrome(0xCD930BDD3B2Bu64 << 11u64, 9, 63) == 0,
        flat_syndrome(0xCD930BDD3B2Bu64 << 11u64, 10, 63) == 0,
        flat_syndrome(0xCD930BDD3B2Bu64 << 11u64, 11, 63) == 0,
        flat_syndrome(0xCD930BDD3B2Bu64 << 11u64, 12, 63) == 0,
        flat_syndrome(0xCD930BDD3B2Bu64 << 11u64, 13, 63) == 0,
        flat_syndrome(0xCD930BDD3B2Bu64 << 11u64, 14, 63) == 0,
        flat_syndrome(0xCD930BDD3B2Bu64 << 11u64, 15, 63) == 0,
        flat_syndrome(0xCD930BDD3B2Bu64 << 11u64, 16, 63) == 0,
        flat_syndrome(0xCD930BDD3B2Bu64 << 11u64, 17, 63) == 0,
        flat_syndrome(0xCD930BDD3B2Bu64 << 11u64, 18, 63) == 0,
        flat_syndrome(0xCD930BDD3B2Bu64 << 11u64, 19, 63) == 0,
        flat_syndrome(0xCD930BDD3B2Bu64 << 11u64, 20, 63) == 0,
        flat_syndrome(0xCD930BDD3B2Bu64 << 11u64, 21, 63) == 0,
        flat_syndrome(0xCD930BDD3B2Bu64 << 12u64, 0, 63) == 0,
        flat_syndrome(0xCD930BDD3B2Bu64 << 12u64, 1, 63) == 0,
        flat_syndrome(0xCD930BDD3B2Bu64 << 12u64, 2, 63) == 0,
        flat_syndrome(0xCD930BDD3B2Bu64 << 12u64, 3, 63) == 0,
        flat_syndrome(0xCD930BDD3B2Bu64 << 12u64, 4, 63) == 0,
        flat_syndrome(0xCD930BDD3B2Bu64 << 12u64, 5, 63) == 0,
        flat_syndrome(0xCD930BDD3B2Bu64 << 12u64, 6, 63) == 0,
        flat_syndrome(0xCD930BDD3B2Bu64 << 12u64, 7, 63) == 0,
        flat_syndrome(0xCD930BDD3B2Bu64 << 12u64, 8, 63) == 0,
        flat_syndrome(0xCD930BDD3B2Bu64 << 12u64, 9, 63) == 0,
        flat_syndrome(0xCD930BDD3B2Bu64 << 12u64, 10, 63) == 0,
        flat_syndrome(0xCD930BDD3B2Bu64 << 12u64, 11, 63) == 0,
        flat_syndrome(0xCD930BDD3B2Bu64 << 12u64, 12, 63) == 0,
        flat_syndrome(0xCD930BDD3B2Bu64 << 12u64, 13, 63) == 0,
        flat_syndrome(0xCD930BDD3B2Bu64 << 12u64, 14, 63) == 0,
        flat_syndrome(0xCD930BDD3B2Bu64 << 12u64, 15, 63) == 0,
        flat_syndrome(0xCD930BDD3B2Bu64 << 12u64, 16, 63) == 0,
        flat_syndrome(0xCD930BDD3B2Bu64 << 12u64, 17, 63) == 0,
        flat_syndrome(0xCD930BDD3B2Bu64 << 12u64, 18, 63) == 0,
        flat_syndrome(0xCD930BDD3B2Bu64 << 12u64, 19, 63) == 0,
        flat_syndrome(0xCD930BDD3B2Bu64 << 12u64, 20, 63) == 0,
        flat_syndrome(0xCD930BDD3B2Bu64 << 12u64, 21, 63) == 0,
        flat_syndrome(0xCD930BDD3B2Bu64 << 13u64, 0, 63) == 0,
        flat_syndrome(0xCD930BDD3B2Bu64 << 13u64, 1, 63) == 0,
        flat_syndrome(0xCD930BDD3B2Bu64 << 13u64, 2, 63) == 0,
        flat_syndrome(0xCD930BDD3B2Bu64 << 13u64, 3, 63) == 0,
        flat_syndrome(0xCD930BDD3B2Bu64 << 13u64, 4, 63) == 0,
        flat_syndrome(0xCD930BDD3B2Bu64 << 13u64, 5, 63) == 0,
        flat_syndrome(0xCD930BDD3B2Bu64 << 13u64, 6, 63) == 0,
        flat_syndrome(0xCD930BDD3B2Bu64 << 13u64, 7, 63) == 0,
        flat_syndrome(0xCD930BDD3B2Bu64 << 13u64, 8, 63) == 0,
        flat_syndrome(0xCD930BDD3B2Bu64 << 13u64, 9, 63) == 0,
        flat_syndrome(0xCD930BDD3B2Bu64 << 13u64, 10, 63) == 0,
        flat_syndrome(0xCD930BDD3B2Bu64 << 13u64, 11, 63) == 0,
        flat_syndrome(0xCD930BDD3B2Bu64 << 13u64, 12, 63) == 0,
        flat_syndrome(0xCD930BDD3B2Bu64 << 13u64, 13, 63) == 0,
        flat_syndrome(0xCD930BDD3B2Bu64 << 13u64, 14, 63) == 0,
        flat_syndrome(0xCD930BDD3B2Bu64 << 13u64, 15, 63) == 0,
        flat_syndrome(0xCD930BDD3B2Bu64 << 13u64, 16, 63) == 0,
        flat_syndrome(0xCD930BDD3B2Bu64 << 13u64, 17, 63) == 0,
        flat_syndrome(0xCD930BDD3B2Bu64 << 13u64, 18, 63) == 0,
        flat_syndrome(0xCD930BDD3B2Bu64 << 13u64, 19, 63) == 0,
        flat_syndrome(0xCD930BDD3B2Bu64 << 13u64, 20, 63) == 0,
        flat_syndrome(0xCD930BDD3B2Bu64 << 13u64, 21, 63) == 0,
        flat_syndrome(0xCD930BDD3B2Bu64 << 14u64, 0, 63) == 0,
        flat_syndrome(0xCD930BDD3B2Bu64 << 14u64, 1, 63) == 0,
        flat_syndrome(0xCD930BDD3B2Bu64 << 14u64, 2, 63) == 0,
        flat_syndrome(0xCD930BDD3B2Bu64 << 14u64, 3, 63) == 0,
        flat_syndrome(0xCD930BDD3B2Bu64 << 14u64, 4, 63) == 0,
        flat_syndrome(0xCD930BDD3B2Bu64 << 14u64, 5, 63) == 0,
        flat_syndrome(0xCD930BDD3B2Bu64 << 14u64, 6, 63) == 0,
        flat_syndrome(0xCD930BDD3B2Bu64 << 14u64, 7, 63) == 0,
        flat_syndrome(0xCD930BDD3B2Bu64 << 14u64, 8, 63) == 0,
        flat_syndrome(0xCD930BDD3B2Bu64 << 14u64, 9, 63) == 0,
        flat_syndrome(0xCD930BDD3B2Bu64 << 14u64, 10, 63) == 0,
        flat_syndrome(0xCD930BDD3B2Bu64 << 14u64, 11, 63) == 0,
        flat_syndrome(0xCD930BDD3B2Bu64 << 14u64, 12, 63) == 0,
        flat_syndrome(0xCD930BDD3B2Bu64 << 14u64, 13, 63) == 0,
        flat_syndrome(0xCD930BDD3B2Bu64 << 14u64, 14, 63) == 0,
        flat_syndrome(0xCD930BDD3B2Bu64 << 14u64, 15, 63) == 0,
        flat_syndrome(0xCD930BDD3B2Bu64 << 14u64, 16, 63) == 0,
        flat_syndrome(0xCD930BDD3B2Bu64 << 14u64, 17, 63) == 0,
        flat_syndrome(0xCD930BDD3B2Bu64 << 14u64, 18, 63) == 0,
        flat_syndrome(0xCD930BDD3B2Bu64 << 14u64, 19, 63) == 0,
        flat_syndrome(0xCD930BDD3B2Bu64 << 14u64, 20, 63) == 0,
        flat_syndrome(0xCD930BDD3B2Bu64 << 14u64, 21, 63) == 0,
        flat_syndrome(0xCD930BDD3B2Bu64 << 15u64, 0, 63) == 0,
        flat_syndrome(0xCD930BDD3B2Bu64 << 15u64, 1, 63) == 0,
        flat_syndrome(0xCD930BDD3B2Bu64 << 15u64, 2, 63) == 0,
        flat_syndrome(0xCD930BDD3B2Bu64 << 15u64, 3, 63) == 0,
        flat_syndrome(0xCD930BDD3B2Bu64 << 15u64, 4, 63) == 0,
        flat_syndrome(0xCD930BDD3B2Bu64 << 15u64, 5, 63) == 0,
        flat_syndrome(0xCD930BDD3B2Bu64 << 15u64, 6, 63) == 0,
        flat_syndrome(0xCD930BDD3B2Bu64 << 15u64, 7, 63) == 0,
        flat_syndrome(0xCD930BDD3B2Bu64 << 15u64, 8, 63) == 0,
        flat_syndrome(0xCD930BDD3B2Bu64 << 15u64, 9, 63) == 0,
        flat_syndrome(0xCD930BDD3B2Bu64 << 15u64, 10, 63) == 0,
        flat_syndrome(0xCD930BDD3B2Bu64 << 15u64, 11, 63) == 0,
        flat_syndrome(0xCD930BDD3B2Bu64 << 15u64, 12, 63) == 0,
        flat_syndrome(0xCD930BDD3B2Bu64 << 15u64, 13, 63) == 0,
        flat_syndrome(0xCD930BDD3B2Bu64 << 15u64, 14, 63) == 0,
        flat_syndrome(0xCD930BDD3B2Bu64 << 15u64, 15, 63) == 0,
        flat_syndrome(0xCD930BDD3B2Bu64 << 15u64, 16, 63) == 0,
        flat_syndrome(0xCD930BDD3B2Bu64 << 15u64, 17, 63) == 0,
        flat_syndrome(0xCD930BDD3B2Bu64 << 15u64, 18, 63) == 0,
        flat_syndrome(0xCD930BDD3B2Bu64 << 15u64, 19, 63) == 0,
        flat_syndrome(0xCD930BDD3B2Bu64 << 15u64, 20, 63) == 0,
        flat_syndrome(0xCD930BDD3B2Bu64 << 15u64, 21, 63) == 0,
{
}

/// The generator shifted up by fewer than 16 places is a codeword.
proof fn lemma_shifted_generator(s: u64)
    requires
        s < 16,
    ensures
        is_codeword(GENERATOR_POLY << s),
{
    lemma_generator_table();
    assert forall|j: nat| j < 22 implies #[trigger] syndrome(GENERATOR_POLY << s, j) == 0 by {
        lemma_flat_syndrome(GENERATOR_POLY << s, j as u32, 63);
        assert(s == 0 || s == 1 || s == 2 || s == 3 || s == 4 || s == 5 || s == 6 || s == 7 || s == 8
            || s == 9 || s == 10 || s == 11 || s == 12 || s == 13 || s == 14 || s == 15);
        assert((j as u32) as nat == j);
    }
}

/// Long division leaves a remainder below bit 47 that differs from the
/// dividend by a codeword.
proof fn lemma_reduce_codeword(x: u64, i: nat)
    requires
        47 <= i <= 63,
        x >> (i as u64) == 0,
    ensures
        is_codeword(x ^ reduce_from(x, GENERATOR_POLY, i)),
        reduce_from(x, GENERATOR_POLY, i) >> 47u64 == 0,
    decreases i,
{
    lemma_codeword_xor(0, 0);
    if i == 47 {
        lemma_code_words(x, 0, 0, 0, 0, 0, 0, 0);
    } else {
        let k = (i - 1) as u64;
        let s = (i - 48) as u64;
        let g = GENERATOR_POLY << s;
        let y = if (x >> k) & 1u64 == 1u64 {
            x ^ g
        } else {
            x
        };
        assert(reduce_from(x, GENERATOR_POLY, i) == reduce_from(y, GENERATOR_POLY, (i - 1) as nat));
        lemma_code_words(x, g, 0, 0, k, s, 0, 0);
        assert(((i - 1) as nat) as u64 == k);
        lemma_reduce_codeword(y, (i - 1) as nat);
        let rem = reduce_from(y, GENERATOR_POLY, (i - 1) as nat);
        lemma_shifted_generator(s);
        lemma_code_words(x, y, rem, 0, 0, 0, 0, 0);
        lemma_code_words(x, g, 0, 0, 0, 0, 0, 0);
        lemma_codeword_xor(x ^ y, y ^ rem);
    }
}

/// Every encoded word is a codeword: data * x^47 minus its remainder is a
/// multiple of the generator.
pub proof fn lemma_encode_codeword(d: u16)
    ensures
        is_codeword(encoded(d)),
{
    let x = (d as u64) << 47u64;
    let rem = reduce_from(x, GENERATOR_POLY, 63);
    lemma_code_words(0, 0, 0, 0, 0, 0, d as u64, 0);
    lemma_reduce_codeword(x, 63);
    lemma_code_words(0, 0, 0, 0, 0, 0, d as u64, rem);
}

/// Encoding and then decoding gives the codeword back with no errors,
/// and the data bits read back from it are the encoded data.
pub proof fn lemma_encode_roundtrip(d: u16)
    ensures
        encoded(d) < 0x8000_0000_0000_0000,
        (encoded(d) >> 47u64) & 0xFFFF == d as u64,
        bch_decoded(encoded(d)) == Some(BchResult { corrected: encoded(d), errors_corrected: 0 }),
{
    let c = encoded(d);
    let x = (d as u64) << 47u64;
    let rem = reduce_from(x, GENERATOR_POLY, 63);
    lemma_encode_codeword(d);
    lemma_code_words(0, 0, 0, 0, 0, 0, d as u64, 0);
    lemma_reduce_codeword(x, 63);
    lemma_code_words(0, 0, 0, 0, 0, 0, d as u64, rem);
    assert(low_bits(c) == c);
}

// ---------------------------------------------------------------------------
// Every codeword is an encoding.
// ---------------------------------------------------------------------------

/// Parity of the set bits of a byte.
pub open spec fn parity8(v: u8) -> u8 {
    (v ^ (v >> 1u8) ^ (v >> 2u8) ^ (v >> 3u8) ^ (v >> 4u8) ^ (v >> 5u8) ^ (v >> 6u8) ^ (v >> 7u8)) & 1
}

/// Six-bit piece `i` of a mask word.
pub open spec fn mask_byte(mw: u64, i: u32) -> u8 {
    ((mw >> ((6 * i) as u64)) & 0x3F) as u8
}

/// For each of the 47 low bit positions, a mask word that reads the bit
/// back from the odd syndromes S_1, S_3, .., S_21 of a word below bit 47:
/// the parity of the masked syndrome bits.
pub open spec fn mask_word(b: u32) -> u64 {
    if b < 23 { if b < 11 { if b < 5 { if b < 2 { if b < 1 { 0x10005DFDC8CDB0D4u64 } else { 0x30009F9F8A22D73Cu64 } } else { if b < 3 { 0x10002829817E48B9u64 } else { if b < 4 { 0x30005A5781987526u64 } else { 0x1000A48309DBD8CDu64 } } } } else { if b < 8 { if b < 6 { 0x3000275C03EB06CFu64 } else { if b < 7 { 0x1000C9D7CA65075Fu64 } else { 0x200041C64174FB7Fu64 } } } else { if b < 9 { 0x2000055B41861AAAu64 } else { if b < 10 { 0x20003A93C1C3B541u64 } else { 0x3000517B09069B03u64 } } } } } else { if b < 17 { if b < 14 { if b < 12 { 0x00005136833BC953u64 } else { if b < 13 { 0x100052618290FAF3u64 } else { 0x300053BD0B0A16B2u64 } } } else { if b < 15 { 0x10000F88881E04A5u64 } else { if b < 16 { 0x2000CD4502D5F4CAu64 } else { 0x20007BFFCB02E7C0u64 } } } } else { if b < 20 { if b < 18 { 0x300008DCC801AF40u64 } else { if b < 19 { 0x0000F560CACD2A54u64 } else { 0x10002857092152BCu64 } } } else { if b < 21 { 0x30005BC143B284ADu64 } else { if b < 22 { 0x1000A61A0AB984DAu64 } else { 0x30002629C96937E0u64 } } } } } } else { if b < 35 { if b < 29 { if b < 26 { if b < 24 { 0x000094E2C352AF95u64 } else { if b < 25 { 0x1000DFA9820C2DBFu64 } else { 0x30002F178B25ADEAu64 } } } else { if b < 27 { 0x1000628308889ED5u64 } else { if b < 28 { 0x3000A9EC0A2A367Fu64 } else { 0x1000B707C162137Eu64 } } } } else { if b < 32 { if b < 30 { 0x20002FE649820BBDu64 } else { if b < 31 { 0x300061B68BF9FDBAu64 } else { 0x1000F53C485B5D35u64 } } } else { if b < 33 { 0x30002A6F4A1379FEu64 } else { if b < 34 { 0x00005BBE89F36EE9u64 } else { 0x0000A786CB452692u64 } } } } } else { if b < 41 { if b < 38 { if b < 36 { 0x000079490808E4A4u64 } else { if b < 37 { 0x100057F80AD1E41Du64 } else { 0x200068DA8138A0FBu64 } } } else { if b < 39 { 0x30005C9B895C67F6u64 } else { if b < 40 { 0x00009E3903E59FB9u64 } else { 0x100075880242CDA6u64 } } } } else { if b < 44 { if b < 42 { 0x2000C7FA83FDBD0Du64 } else { if b < 43 { 0x2000D1264262D9CFu64 } else { 0x2000E30B4B4FFECBu64 } } } else { if b < 45 { 0x300047EE0816A697u64 } else { if b < 46 { 0x10003DB942C994AFu64 } else { 0x300068CD4BD6C40Au64 } } } } } }
}

/// The bit that the mask word `mw` reads from the first `i` odd syndromes
/// of `x`.
pub open spec fn recover_bit(x: u64, mw: u64, i: nat) -> u8
    decreases i,
{
    if i == 0 {
        0
    } else {
        recover_bit(x, mw, (i - 1) as nat) ^ parity8(mask_byte(mw, (i - 1) as u32) & syndrome(x, (2 * (i - 1)) as nat))
    }
}

/// `recover_bit` of the unit word at `c`, over the written-out powers.
pub open spec fn flat_recover(mw: u64, c: u32, i: u32) -> u8
    decreases i,
{
    if i == 0 {
        0
    } else {
        flat_recover(mw, c, (i - 1) as u32) ^ parity8(mask_byte(mw, (i - 1) as u32) & alpha_power(
            ((c * (2 * (i - 1) + 1)) % 63) as u32,
        ))
    }
}

/// The mask word reads one from the unit word at `b` and zero from the
/// other unit words below bit 47.
pub open spec fn unit_recovers(mw: u64, b: u32) -> bool {
    &&& flat_recover(mw, 0, 11) == if b == 0 { 1u8 } else { 0u8 }
    &&& flat_recover(mw, 1, 11) == if b == 1 { 1u8 } else { 0u8 }
    &&& flat_recover(mw, 2, 11) == if b == 2 { 1u8 } else { 0u8 }
    &&& flat_recover(mw, 3, 11) == if b == 3 { 1u8 } else { 0u8 }
    &&& flat_recover(mw, 4, 11) == if b == 4 { 1u8 } else { 0u8 }
    &&& flat_recover(mw, 5, 11) == if b == 5 { 1u8 } else { 0u8 }
    &&& flat_recover(mw, 6, 11) == if b == 6 { 1u8 } else { 0u8 }
    &&& flat_recover(mw, 7, 11) == if b == 7 { 1u8 } else { 0u8 }
    &&& flat_recover(mw, 8, 11) == if b == 8 { 1u8 } else { 0u8 }
    &&& flat_recover(mw, 9, 11) == if b == 9 { 1u8 } else { 0u8 }
    &&& flat_recover(mw, 10, 11) == if b == 10 { 1u8 } else { 0u8 }
    &&& flat_recover(mw, 11, 11) == if b == 11 { 1u8 } else { 0u8 }
    &&& flat_recover(mw, 12, 11) == if b == 12 { 1u8 } else { 0u8 }
    &&& flat_recover(mw, 13, 11) == if b == 13 { 1u8 } else { 0u8 }
    &&& flat_recover(mw, 14, 11) == if b == 14 { 1u8 } else { 0u8 }
    &&& flat_recover(mw, 15, 11) == if b == 15 { 1u8 } else { 0u8 }
    &&& flat_recover(mw, 16, 11) == if b == 16 { 1u8 } else { 0u8 }
    &&& flat_recover(mw, 17, 11) == if b == 17 { 1u8 } else { 0u8 }
    &&& flat_recover(mw, 18, 11) == if b == 18 { 1u8 } else { 0u8 }
    &&& flat_recover(mw, 19, 11) == if b == 19 { 1u8 } else { 0u8 }
    &&& flat_recover(mw, 20, 11) == if b == 20 { 1u8 } else { 0u8 }
    &&& flat_recover(mw, 21, 11) == if b == 21 { 1u8 } else { 0u8 }
    &&& flat_recover(mw, 22, 11) == if b == 22 { 1u8 } else { 0u8 }
    &&& flat_recover(mw, 23, 11) == if b == 23 { 1u8 } else { 0u8 }
    &&& flat_recover(mw, 24, 11) == if b == 24 { 1u8 } else { 0u8 }
    &&& flat_recover(mw, 25, 11) == if b == 25 { 1u8 } else { 0u8 }
    &&& flat_recover(mw, 26, 11) == if b == 26 { 1u8 } else { 0u8 }
    &&& flat_recover(mw, 27, 11) == if b == 27 { 1u8 } else { 0u8 }
    &&& flat_recover(mw, 28, 11) == if b == 28 { 1u8 } else { 0u8 }
    &&& flat_recover(mw, 29, 11) == if b == 29 { 1u8 } else { 0u8 }
    &&& flat_recover(mw, 30, 11) == if b == 30 { 1u8 } else { 0u8 }
    &&& flat_recover(mw, 31, 11) == if b == 31 { 1u8 } else { 0u8 }
    &&& flat_recover(mw, 32, 11) == if b == 32 { 1u8 } else { 0u8 }
    &&& flat_recover(mw, 33, 11) == if b == 33 { 1u8 } else { 0u8 }
    &&& flat_recover(mw, 34, 11) == if b == 34 { 1u8 } else { 0u8 }
    &&& flat_recover(mw, 35, 11) == if b == 35 { 1u8 } else { 0u8 }
    &&& flat_recover(mw, 36, 11) == if b == 36 { 1u8 } else { 0u8 }
    &&& flat_recover(mw, 37, 11) == if b == 37 { 1u8 } else { 0u8 }
    &&& flat_recover(mw, 38, 11) == if b == 38 { 1u8 } else { 0u8 }
    &&& flat_recover(mw, 39, 11) == if b == 39 { 1u8 } else { 0u8 }
    &&& flat_recover(mw, 40, 11) == if b == 40 { 1u8 } else { 0u8 }
    &&& flat_recover(mw, 41, 11) == if b == 41 { 1u8 } else { 0u8 }
    &&& flat_recover(mw, 42, 11) == if b == 42 { 1u8 } else { 0u8 }
    &&& flat_recover(mw, 43, 11) == if b == 43 { 1u8 } else { 0u8 }
    &&& flat_recover(mw, 44, 11) == if b == 44 { 1u8 } else { 0u8 }
    &&& flat_recover(mw, 45, 11) == if b == 45 { 1u8 } else { 0u8 }
    &&& flat_recover(mw, 46, 11) == if b == 46 { 1u8 } else { 0u8 }
}

/// Parity is linear; the bits of a word below bit 47 are all zero only for
/// zero; removing the top bit of a word leaves it below that bit; and each
/// mask word reads back its own unit word.
proof fn lemma_recover_facts(m: u8, u: u8, v: u8, z: u64, x: u64, k: u64)
    by (bit_vector)
    ensures
        parity8(m & (u ^ v)) == parity8(m & u) ^ parity8(m & v),
        parity8(m & 0) == 0,
        (z < 0x8000_0000_0000u64 && (z >> 0u64) & 1 == 0 && (z >> 1u64) & 1 == 0 && (z >> 2u64) & 1 == 0 && (z >> 3u64) & 1 == 0 && (z >> 4u64) & 1 == 0 && (z >> 5u64) & 1 == 0 && (z >> 6u64) & 1 == 0 && (z >> 7u64) & 1 == 0 && (z >> 8u64) & 1 == 0 && (z >> 9u64) & 1 == 0 && (z >> 10u64) & 1 == 0 && (z >> 11u64) & 1 == 0 && (z >> 12u64) & 1 == 0 && (z >> 13u64) & 1 == 0 && (z >> 14u64) & 1 == 0 && (z >> 15u64) & 1 == 0 && (z >> 16u64) & 1 == 0 && (z >> 17u64) & 1 == 0 && (z >> 18u64) & 1 == 0 && (z >> 19u64) & 1 == 0 && (z >> 20u64) & 1 == 0 && (z >> 21u64) & 1 == 0 && (z >> 22u64) & 1 == 0 && (z >> 23u64) & 1 == 0 && (z >> 24u64) & 1 == 0 && (z >> 25u64) & 1 == 0 && (z >> 26u64) & 1 == 0 && (z >> 27u64) & 1 == 0 && (z >> 28u64) & 1 == 0 && (z >> 29u64) & 1 == 0 && (z >> 30u64) & 1 == 0 && (z >> 31u64) & 1 == 0 && (z >> 32u64) & 1 == 0 && (z >> 33u64) & 1 == 0 && (z >> 34u64) & 1 == 0 && (z >> 35u64) & 1 == 0 && (z >> 36u64) & 1 == 0 && (z >> 37u64) & 1 == 0 && (z >> 38u64) & 1 == 0 && (z >> 39u64) & 1 == 0 && (z >> 40u64) & 1 == 0 && (z >> 41u64) & 1 == 0 && (z >> 42u64) & 1 == 0 && (z >> 43u64) & 1 == 0 && (z >> 44u64) & 1 == 0 && (z >> 45u64) & 1 == 0 && (z >> 46u64) & 1 == 0) ==> z == 0,
        (k < 63 && x >> (k + 1) == 0 && (x >> k) & 1 == 1) ==> (x ^ (1u64 << k)) >> k == 0,
        (k < 63 && x >> (k + 1) == 0 && (x >> k) & 1 == 0) ==> x >> k == 0,
        x >> 0u64 == 0 ==> x == 0,
        (x ^ (1u64 << k)) ^ (1u64 << k) == x,
        0u64 ^ x == x,
        x >> 47u64 == 0 ==> x < 0x8000_0000_0000u64,
        x < 0x8000_0000_0000_0000u64 ==> (x >> 47u64) & 0xFFFF == x >> 47u64,
        (x >> 47u64) & 0xFFFF < 0x1_0000,
        x >> 47u64 == z >> 47u64 ==> (x ^ z) >> 47u64 == 0,
        x ^ z == 0 ==> x == z,
        unit_recovers(0x10005DFDC8CDB0D4u64, 0),
        unit_recovers(0x30009F9F8A22D73Cu64, 1),
        unit_recovers(0x10002829817E48B9u64, 2),
        unit_recovers(0x30005A5781987526u64, 3),
        unit_recovers(0x1000A48309DBD8CDu64, 4),
        unit_recovers(0x3000275C03EB06CFu64, 5),
        unit_recovers(0x1000C9D7CA65075Fu64, 6),
        unit_recovers(0x200041C64174FB7Fu64, 7),
        unit_recovers(0x2000055B41861AAAu64, 8),
        unit_recovers(0x20003A93C1C3B541u64, 9),
        unit_recovers(0x3000517B09069B03u64, 10),
        unit_recovers(0x00005136833BC953u64, 11),
        unit_recovers(0x100052618290FAF3u64, 12),
        unit_recovers(0x300053BD0B0A16B2u64, 13),
        unit_recovers(0x10000F88881E04A5u64, 14),
        unit_recovers(0x2000CD4502D5F4CAu64, 15),
        unit_recovers(0x20007BFFCB02E7C0u64, 16),
        unit_recovers(0x300008DCC801AF40u64, 17),
        unit_recovers(0x0000F560CACD2A54u64, 18),
        unit_recovers(0x10002857092152BCu64, 19),
        unit_recovers(0x30005BC143B284ADu64, 20),
        unit_recovers(0x1000A61A0AB984DAu64, 21),
        unit_recovers(0x30002629C96937E0u64, 22),
        unit_recovers(0x000094E2C352AF95u64, 23),
        unit_recovers(0x1000DFA9820C2DBFu64, 24),
        unit_recovers(0x30002F178B25ADEAu64, 25),
        unit_recovers(0x1000628308889ED5u64, 26),
        unit_recovers(0x3000A9EC0A2A367Fu64, 27),
        unit_recovers(0x1000B707C162137Eu64, 28),
        unit_recovers(0x20002FE649820BBDu64, 29),
        unit_recovers(0x300061B68BF9FDBAu64, 30),
        unit_recovers(0x1000F53C485B5D35u64, 31),
        unit_recovers(0x30002A6F4A1379FEu64, 32),
        unit_recovers(0x00005BBE89F36EE9u64, 33),
        unit_recovers(0x0000A786CB452692u64, 34),
        unit_recovers(0x000079490808E4A4u64, 35),
        unit_recovers(0x100057F80AD1E41Du64, 36),
        unit_recovers(0x200068DA8138A0FBu64, 37),
        unit_recovers(0x30005C9B895C67F6u64, 38),
        unit_recovers(0x00009E3903E59FB9u64, 39),
        unit_recovers(0x100075880242CDA6u64, 40),
        unit_recovers(0x2000C7FA83FDBD0Du64, 41),
        unit_recovers(0x2000D1264262D9CFu64, 42),
        unit_recovers(0x2000E30B4B4FFECBu64, 43),
        unit_recovers(0x300047EE0816A697u64, 44),
        unit_recovers(0x10003DB942C994AFu64, 45),
        unit_recovers(0x300068CD4BD6C40Au64, 46),
{
}

/// The syndromes of a unit word are powers of alpha.
proof fn lemma_unit_syndrome(c: u64, j: nat)
    requires
        c < 63,
        j < 22,
    ensures
        syndrome(1u64 << c, j) == alpha_power(((c * (j + 1)) % 63) as u32),
{
    lemma_flip_syndrome(0, c, j, 63);
    lemma_syndrome_zero(j, 63);
    lemma_recover_facts(0, 0, 0, 0, 1u64 << c, 0);
    crate::p25::bitwise::lemma_bit_u64(0, 0, c);
    lemma_term_facts(c as nat, j);
    crate::p25::bitwise::lemma_xor_u8(bit_term(c as nat, j), 0, 0);
    crate::p25::bitwise::lemma_xor_u8(0, bit_term(c as nat, j), 0);
    lemma_alpha_power(((c * (j + 1)) % 63) as u32);
    assert(((c * (j + 1)) % 63) as u32 as nat == (c as nat * (j + 1)) % 63);
}

/// Reading the unit word at `c` follows the written-out powers.
proof fn lemma_recover_unit(mw: u64, c: u32, i: u32)
    requires
        c < 47,
        i <= 11,
    ensures
        recover_bit(1u64 << (c as u64), mw, i as nat) == flat_recover(mw, c, i),
    decreases i,
{
    if i > 0 {
        lemma_recover_unit(mw, c, (i - 1) as u32);
        let j = (2 * (i - 1)) as nat;
        lemma_unit_syndrome(c as u64, j);
        assert((c as u64) * (j + 1) == c * (2 * (i - 1) + 1));
    }
}

/// Reading a bit is linear in the word.
proof fn lemma_recover_linear(x: u64, y: u64, mw: u64, i: nat)
    requires
        i <= 11,
    ensures
        recover_bit(x ^ y, mw, i) == recover_bit(x, mw, i) ^ recover_bit(y, mw, i),
    decreases i,
{
    if i > 0 {
        let q = (i - 1) as nat;
        lemma_recover_linear(x, y, mw, q);
        let j = (2 * q) as nat;
        lemma_syndrome_xor(x, y, j, 63);
        let m = mask_byte(mw, q as u32);
        let sx = syndrome(x, j);
        let sy = syndrome(y, j);
        lemma_recover_facts(m, sx, sy, 0, 0, 0);
        let a = recover_bit(x, mw, q);
        let c = recover_bit(y, mw, q);
        let px = parity8(m & sx);
        let py = parity8(m & sy);
        crate::p25::bitwise::lemma_xor_u8(a, c, px ^ py);
        crate::p25::bitwise::lemma_xor_u8(c, px, py);
        crate::p25::bitwise::lemma_xor_u8(px, c, py);
        crate::p25::bitwise::lemma_xor_u8(a, px, c ^ py);
        crate::p25::bitwise::lemma_xor_u8(c, px, 0);
    } else {
        crate::p25::bitwise::lemma_xor_u8(0, 0, 0);
    }
}

/// Reading a bit of a word whose syndromes vanish gives zero.
proof fn lemma_recover_codeword(x: u64, mw: u64, i: nat)
    requires
        i <= 11,
        is_codeword(x),
    ensures
        recover_bit(x, mw, i) == 0,
    decreases i,
{
    if i > 0 {
        let q = (i - 1) as nat;
        lemma_recover_codeword(x, mw, q);
        assert(syndrome(x, 2 * q) == 0);
        lemma_recover_facts(mask_byte(mw, q as u32), 0, 0, 0, 0, 0);
        crate::p25::bitwise::lemma_xor_u8(0, 0, 0);
    }
}

/// The mask words read back every bit below bit 47 of a word below bit
/// `n`.
proof fn lemma_recover_bits(x: u64, n: u64, b: u32)
    requires
        n <= 47,
        x >> n == 0,
        b < 47,
    ensures
        recover_bit(x, mask_word(b), 11) == if (x >> (b as u64)) & 1 == 1 { 1u8 } else { 0u8 },
    decreases n,
{
    let mw = mask_word(b);
    crate::p25::bitwise::lemma_bit_u64(x, b as u64, 0);
    if n == 0 {
        lemma_recover_facts(0, 0, 0, 0, x, 0);
        lemma_syndrome_zero(0, 63);
        lemma_codeword_xor(0, 0);
        lemma_recover_codeword(0, mw, 11);
        crate::p25::bitwise::lemma_bit_u64(0, b as u64, 0);
    } else {
        let k = (n - 1) as u64;
        lemma_recover_facts(0, 0, 0, 0, x, k);
        crate::p25::bitwise::lemma_bit_u64(x, k, k);
        if (x >> k) & 1 == 1 {
            let y = x ^ (1u64 << k);
            lemma_recover_bits(y, k, b);
            lemma_recover_linear(y, 1u64 << k, mw, 11);
            crate::p25::bitwise::lemma_bit_u64(y, b as u64, k);
            crate::p25::bitwise::lemma_bit_u64(x, b as u64, k);
            assert(y ^ (1u64 << k) == x);
            lemma_recover_unit(mw, k as u32, 11);
            lemma_recover_facts(0, 0, 0, 0, 0, 0);
            assert(unit_recovers(mw, b)) by {
                assert(b == 0 || b == 1 || b == 2 || b == 3 || b == 4 || b == 5 || b == 6 || b == 7 || b == 8 || b == 9 || b == 10 || b == 11 || b == 12 || b == 13 || b == 14 || b == 15 || b == 16 || b == 17 || b == 18 || b == 19 || b == 20 || b == 21 || b == 22 || b == 23 || b == 24 || b == 25 || b == 26 || b == 27 || b == 28 || b == 29 || b == 30 || b == 31 || b == 32 || b == 33 || b == 34 || b == 35 || b == 36 || b == 37 || b == 38 || b == 39 || b == 40 || b == 41 || b == 42 || b == 43 || b == 44 || b == 45 || b == 46);
            }
            assert(flat_recover(mw, k as u32, 11) == if b == k as u32 { 1u8 } else { 0u8 }) by {
                let c = k as u32;
                assert(c == 0 || c == 1 || c == 2 || c == 3 || c == 4 || c == 5 || c == 6 || c == 7 || c == 8 || c == 9 || c == 10 || c == 11 || c == 12 || c == 13 || c == 14 || c == 15 || c == 16 || c == 17 || c == 18 || c == 19 || c == 20 || c == 21 || c == 22 || c == 23 || c == 24 || c == 25 || c == 26 || c == 27 || c == 28 || c == 29 || c == 30 || c == 31 || c == 32 || c == 33 || c == 34 || c == 35 || c == 36 || c == 37 || c == 38 || c == 39 || c == 40 || c == 41 || c == 42 || c == 43 || c == 44 || c == 45 || c == 46);
            }
            let r = recover_bit(y, mw, 11);
            crate::p25::bitwise::lemma_xor_u8(r, 0, 0);
            crate::p25::bitwise::lemma_xor_u8(r, 1, 0);
            crate::p25::bitwise::lemma_xor_u8(1, 1, 0);
            crate::p25::bitwise::lemma_xor_u8(0, 1, 0);
        } else {
            lemma_recover_bits(x, k, b);
        }
    }
}

/// Each low bit of a codeword below bit 47 is zero.
proof fn lemma_low_bit(z: u64, b: u64)
    requires
        is_codeword(z),
        z >> 47u64 == 0,
        b < 47,
    ensures
        (z >> b) & 1 == 0,
{
    lemma_recover_bits(z, 47, b as u32);
    lemma_recover_codeword(z, mask_word(b as u32), 11);
    crate::p25::bitwise::lemma_bit_u64(z, b, 0);
}

/// A codeword below bit 47 is zero: the 47 low positions carry no
/// codeword but zero.
proof fn lemma_low_codeword(z: u64)
    requires
        is_codeword(z),
        z >> 47u64 == 0,
    ensures
        z == 0,
{
    lemma_low_bit(z, 0);
    lemma_low_bit(z, 1);
    lemma_low_bit(z, 2);
    lemma_low_bit(z, 3);
    lemma_low_bit(z, 4);
    lemma_low_bit(z, 5);
    lemma_low_bit(z, 6);
    lemma_low_bit(z, 7);
    lemma_low_bit(z, 8);
    lemma_low_bit(z, 9);
    lemma_low_bit(z, 10);
    lemma_low_bit(z, 11);
    lemma_low_bit(z, 12);
    lemma_low_bit(z, 13);
    lemma_low_bit(z, 14);
    lemma_low_bit(z, 15);
    lemma_low_bit(z, 16);
    lemma_low_bit(z, 17);
    lemma_low_bit(z, 18);
    lemma_low_bit(z, 19);
    lemma_low_bit(z, 20);
    lemma_low_bit(z, 21);
    lemma_low_bit(z, 22);
    lemma_low_bit(z, 23);
    lemma_low_bit(z, 24);
    lemma_low_bit(z, 25);
    lemma_low_bit(z, 26);
    lemma_low_bit(z, 27);
    lemma_low_bit(z, 28);
    lemma_low_bit(z, 29);
    lemma_low_bit(z, 30);
    lemma_low_bit(z, 31);
    lemma_low_bit(z, 32);
    lemma_low_bit(z, 33);
    lemma_low_bit(z, 34);
    lemma_low_bit(z, 35);
    lemma_low_bit(z, 36);
    lemma_low_bit(z, 37);
    lemma_low_bit(z, 38);
    lemma_low_bit(z, 39);
    lemma_low_bit(z, 40);
    lemma_low_bit(z, 41);
    lemma_low_bit(z, 42);
    lemma_low_bit(z, 43);
    lemma_low_bit(z, 44);
    lemma_low_bit(z, 45);
    lemma_low_bit(z, 46);
    lemma_recover_facts(0, 0, 0, z, z, 0);
}

/// Every codeword of the code is the encoding of its top 16 bits: the
/// data bits determine the parity bits.
pub proof fn lemma_codeword_is_encoding(c: u64)
    requires
        is_codeword(c),
        c < 0x8000_0000_0000_0000,
    ensures
        encoded(((c >> 47u64) & 0xFFFF) as u16) == c,
{
    let d = ((c >> 47u64) & 0xFFFF) as u16;
    let e = encoded(d);
    lemma_recover_facts(0, 0, 0, e, c, 0);
    assert(d as u64 == c >> 47u64);
    lemma_encode_codeword(d);
    lemma_code_words(0, 0, 0, 0, 0, 0, d as u64, reduce_from((d as u64) << 47u64, GENERATOR_POLY, 63));
    assert(e >> 47u64 == d as u64);
    lemma_codeword_xor(c, e);
    lemma_low_codeword(c ^ e);
}

} // verus!

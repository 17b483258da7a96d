//! Reed-Solomon decoders for P25 voice link control and crypto control.
//!
//! P25 uses Reed-Solomon codes over GF(2^6):
//! - **Short (24, 12, 13)**: protects LDU1 Link Control (corrects up to 6 hexbit errors)
//! - **Medium (24, 16, 9)**: protects LDU2 Crypto Control (corrects up to 4 hexbit errors)
//! - **Long (36, 20, 17)**: protects the voice header (corrects up to 8 hexbit errors)
//!
//! Each operates on 6-bit symbols (hexbits) using the GF(2^6) Galois field.
//! A received word is read as a polynomial whose first symbol is the
//! highest-degree coefficient; the syndromes are its values at
//! alpha^1 .. alpha^2t, and the Berlekamp-Massey / Chien / Forney pipeline
//! of [`super::bmcf`] turns them into corrections.

use vstd::prelude::*;
use super::bmcf::{
    Errors, BmState, bm_initial, bm_step, bm_steps, error_locator, eval_at_power, roots_from,
    seq_unit, simple_roots, corrections_for, evaluator_coefs, deriv_coefs, xor_sum,
};
use super::galois::{
    alpha_power, flat_mul, Codeword, Polynomial, PolynomialCoefs, gf_add, gf_exp, gf_mul, poly_eval, highest_nonzero,
    coef_at, lemma_exp_bound, lemma_codeword_bound, lemma_exp_table, lemma_highest_nonzero,
    lemma_mul_identity,
};
use crate::p25::types::Hexbit;

pub mod long;
pub mod medium;
pub mod short;

verus! {

broadcast use crate::p25::types::lemma_hexbit_bound;

// ---------------------------------------------------------------------------
// Coefficient storage types for each RS code variant
// ---------------------------------------------------------------------------

/// Polynomial storage for the (24, 12, 13) short code.
#[derive(Debug, Clone, Copy, Default)]
pub struct ShortCoefs;

impl PolynomialCoefs for ShortCoefs {
    open spec fn spec_distance() -> nat {
        13
    }

    open spec fn spec_len() -> nat {
        24
    }

    proof fn lemma_params() {
        assert(Self::spec_distance() == 13 && Self::spec_len() == 24);
    }

    fn distance() -> (d: usize) {
        13
    }

    fn storage_len() -> (n: usize) {
        24
    }
}

/// Polynomial storage for the (24, 16, 9) medium code.
#[derive(Debug, Clone, Copy, Default)]
pub struct MediumCoefs;

impl PolynomialCoefs for MediumCoefs {
    open spec fn spec_distance() -> nat {
        9
    }

    open spec fn spec_len() -> nat {
        24
    }

    proof fn lemma_params() {
        assert(Self::spec_distance() == 9 && Self::spec_len() == 24);
    }

    fn distance() -> (d: usize) {
        9
    }

    fn storage_len() -> (n: usize) {
        24
    }
}

/// Polynomial storage for the (36, 20, 17) long code.
#[derive(Debug, Clone, Copy, Default)]
pub struct LongCoefs;

impl PolynomialCoefs for LongCoefs {
    open spec fn spec_distance() -> nat {
        17
    }

    open spec fn spec_len() -> nat {
        36
    }

    proof fn lemma_params() {
        assert(Self::spec_distance() == 17 && Self::spec_len() == 36);
    }

    fn distance() -> (d: usize) {
        17
    }

    fn storage_len() -> (n: usize) {
        36
    }
}

// ---------------------------------------------------------------------------
// Mathematical model
// ---------------------------------------------------------------------------

/// The 6-bit values of a run of hexbits.
pub open spec fn hexbit_values(s: Seq<Hexbit>) -> Seq<u8> {
    s.map_values(|h: Hexbit| h@)
}

/// Word symbols as polynomial coefficients: the first symbol is the
/// highest-degree coefficient.
pub open spec fn word_poly(w: Seq<u8>) -> Seq<u8> {
    Seq::new(w.len(), |i: int| w[w.len() - 1 - i])
}

/// The syndrome polynomial s(x) = s_1 + s_2 x + ... + s_2t x^(2t-1) of
/// the codeword polynomial `c`, padded with zeros to `len` coefficients,
/// where s_j = c(alpha^j).
pub open spec fn syndrome_coefs(c: Seq<u8>, t2: nat, len: nat) -> Seq<u8> {
    Seq::new(
        len,
        |i: int| if i < t2 { poly_eval(c, gf_exp((i + 1) as nat) as u8) } else { 0u8 },
    )
}

/// Apply (location, pattern) corrections in order: each adds its pattern
/// to the coefficient at its location.
pub open spec fn apply_corrections(c: Seq<u8>, corr: Seq<(nat, u8)>) -> Seq<u8>
    decreases corr.len(),
{
    if corr.len() == 0 {
        c
    } else {
        let prev = apply_corrections(c, corr.drop_last());
        let (loc, pat) = corr.last();
        prev.update(loc as int, gf_add(prev[loc as int], pat))
    }
}

/// Every correction lands inside a word of `n` symbols.
pub open spec fn corrections_fit(corr: Seq<(nat, u8)>, n: nat) -> bool {
    forall|i: int| 0 <= i < corr.len() ==> (#[trigger] corr[i]).0 < n
}

/// Result of decoding the codeword polynomial `c` with `t2` syndromes:
/// the corrected polynomial and the number of symbol errors, or `None`
/// when the errors cannot be corrected.
pub open spec fn rs_decode_poly(c: Seq<u8>, t2: nat) -> Option<(Seq<u8>, nat)> {
    let len = c.len();
    let syn = syndrome_coefs(c, t2, len);
    let loc = error_locator(syn, len, t2);
    let roots = roots_from(loc, 0);
    let deg = highest_nonzero(loc);
    if deg < 0 {
        Some((c, 0))
    } else if roots.len() != deg || !simple_roots(loc, roots) {
        None
    } else {
        let corr = corrections_for(evaluator_coefs(syn, loc, len, t2), deriv_coefs(loc), roots);
        if corrections_fit(corr, len) {
            Some((apply_corrections(c, corr), deg as nat))
        } else {
            None
        }
    }
}

/// Result of decoding a received word of hexbit values with `t2`
/// syndromes and `k` data symbols: the corrected data symbols (in word
/// order) and the number of symbol errors, or `None`.
pub open spec fn rs_decode_word(w: Seq<u8>, t2: nat, k: nat) -> Option<(Seq<u8>, nat)> {
    match rs_decode_poly(word_poly(w), t2) {
        None => None,
        Some((c, n)) => Some((word_poly(c).subrange(0, k as int), n)),
    }
}

/// Corrections that land inside the word keep its length.
proof fn lemma_apply_corrections_len(c: Seq<u8>, corr: Seq<(nat, u8)>)
    requires
        corrections_fit(corr, c.len()),
    ensures
        apply_corrections(c, corr).len() == c.len(),
    decreases corr.len(),
{
    if corr.len() > 0 {
        assert(corrections_fit(corr.drop_last(), c.len())) by {
            assert forall|i: int| 0 <= i < corr.drop_last().len() implies (#[trigger] corr.drop_last()[i]).0
                < c.len() by {
                assert(corr.drop_last()[i] == corr[i]);
            }
        }
        lemma_apply_corrections_len(c, corr.drop_last());
        assert(corr[corr.len() - 1].0 < c.len());
    }
}

/// A decoded word has exactly `k` data symbols.
pub proof fn lemma_rs_decode_len(w: Seq<u8>, t2: nat, k: nat)
    requires
        k <= w.len(),
    ensures
        rs_decode_word(w, t2, k) matches Some((d, _)) ==> d.len() == k,
{
    let c = word_poly(w);
    let len = c.len();
    let syn = syndrome_coefs(c, t2, len);
    let loc = error_locator(syn, len, t2);
    let roots = roots_from(loc, 0);
    let corr = corrections_for(evaluator_coefs(syn, loc, len, t2), deriv_coefs(loc), roots);
    if corrections_fit(corr, len) {
        lemma_apply_corrections_len(c, corr);
    }
}

/// GF(2^6) dot product of the first `n` entries of `data` and `row`.
pub open spec fn gf_dot(data: Seq<u8>, row: Seq<u8>, n: nat) -> u8
    decreases n,
{
    if n == 0 {
        0
    } else {
        gf_add(gf_dot(data, row, (n - 1) as nat), gf_mul(data[n - 1], row[n - 1]))
    }
}

/// Systematic encoding with a generator matrix given as parity rows: the
/// first `k` symbols are kept and parity symbol `i` is the dot product of
/// the data with row `i`.
pub open spec fn systematic_word(w: Seq<u8>, rows: Seq<Seq<u8>>, k: nat) -> Seq<u8> {
    Seq::new(
        w.len(),
        |i: int| if i < k { w[i] } else { gf_dot(w, rows[i - k], k) },
    )
}

// ---------------------------------------------------------------------------
// Laws
// ---------------------------------------------------------------------------

/// Whether every syndrome of the codeword polynomial `c` vanishes:
/// c(alpha^j) = 0 for j = 1 ..= 2t.
pub open spec fn syndromes_vanish(c: Seq<u8>, t2: nat) -> bool {
    forall|j: int| 0 <= j < t2 ==> #[trigger] poly_eval(c, gf_exp((j + 1) as nat) as u8) == 0
}

/// Berlekamp-Massey on all-zero syndromes only ever divides by x.
proof fn lemma_bm_zero_syndromes(len: nat, t2: nat, k: nat)
    requires
        k <= t2,
        t2 + 2 <= len,
    ensures
        ({
            let zeros = Seq::new(len, |i: int| 0u8);
            let init = bm_initial(zeros, len, t2);
            bm_steps(init, len, k) == (
                init.0,
                init.1.subrange(k as int, len as int),
                init.2,
                zeros.subrange(k as int, len as int),
                0nat,
                1 + 2 * k,
            )
        }),
    decreases k,
{
    let zeros = Seq::new(len, |i: int| 0u8);
    let init = bm_initial(zeros, len, t2);
    if k == 0 {
        assert(init.1.subrange(0, len as int) =~= init.1);
        assert(zeros.subrange(0, len as int) =~= zeros);
    } else {
        lemma_bm_zero_syndromes(len, t2, (k - 1) as nat);
        let prev = bm_steps(init, len, (k - 1) as nat);
        assert(prev.3[0] == 0);
        assert(prev.1.drop_first() =~= init.1.subrange(k as int, len as int));
        assert(prev.3.drop_first() =~= zeros.subrange(k as int, len as int));
    }
}

/// The sum of a sequence whose only non-zero element is a leading 1 is 1.
proof fn lemma_xor_sum_unit(s: Seq<u8>)
    requires
        s.len() >= 1,
        s[0] == 1,
        forall|i: int| 1 <= i < s.len() ==> s[i] == 0,
    ensures
        xor_sum(s) == 1,
    decreases s.len(),
{
    if s.len() == 1 {
        assert(s.drop_last().len() == 0);
        assert(xor_sum(s.drop_last()) == 0);
        assert(s.last() == 1);
        crate::p25::bitwise::lemma_xor_u8(1, 0, 0);
    } else {
        lemma_xor_sum_unit(s.drop_last());
        assert(s.last() == 0);
        crate::p25::bitwise::lemma_xor_u8(1, 0, 0);
    }
}

/// A word whose syndromes all vanish is a codeword: it decodes to itself
/// with no errors.
pub proof fn lemma_decode_codeword(c: Seq<u8>, t2: nat)
    requires
        t2 + 2 <= c.len(),
        c.len() <= 64,
        syndromes_vanish(c, t2),
    ensures
        rs_decode_poly(c, t2) == Some((c, 0nat)),
{
    let len = c.len();
    let zeros = Seq::new(len, |i: int| 0u8);
    let syn = syndrome_coefs(c, t2, len);
    assert forall|i: int| 0 <= i < len implies syn[i] == zeros[i] by {
        if i < t2 {
            assert(poly_eval(c, gf_exp((i + 1) as nat) as u8) == 0);
        }
    }
    assert(syn =~= zeros);
    lemma_bm_zero_syndromes(len, t2, t2);
    let loc = error_locator(syn, len, t2);
    let init = bm_initial(zeros, len, t2);
    assert(loc == init.1.subrange(t2 as int, len as int));
    assert(loc[0] == 1);
    assert forall|i: int| 0 < i < loc.len() implies loc[i] == 0 by {
        assert(loc[i] == init.1[t2 + i]);
    }
    lemma_highest_nonzero(loc, 0);
    // The locator is the constant 1, which has no roots.
    assert forall|p: nat| p < 63 implies eval_at_power(loc, p) == 1 by {
        let terms = Seq::new(loc.len(), |i: int| gf_mul(loc[i], gf_exp((i * p) as nat) as u8));
        lemma_exp_table();
        assert(gf_exp(0) == 1);
        lemma_mul_identity(1, 1);
        assert(terms[0] == 1);
        assert forall|i: int| 1 <= i < terms.len() implies terms[i] == 0 by {
            assert(loc[i] == 0);
        }
        lemma_xor_sum_unit(terms);
    }
    lemma_roots_of_one(loc, 0);
    let roots = roots_from(loc, 0);
    assert(roots.len() == 0);
    let corr = corrections_for(
        evaluator_coefs(syn, loc, len, t2),
        deriv_coefs(loc),
        roots,
    );
    assert(corr.len() == 0);
    assert(apply_corrections(c, corr) == c);
}

/// A polynomial that evaluates to 1 at every power of alpha has no roots.
proof fn lemma_roots_of_one(s: Seq<u8>, pow: nat)
    requires
        forall|p: nat| p < 63 ==> eval_at_power(s, p) == 1,
    ensures
        roots_from(s, pow).len() == 0,
    decreases 63 - pow,
{
    if pow < 63 {
        lemma_roots_of_one(s, pow + 1);
    }
}

/// Word form of [`lemma_decode_codeword`]: a received word whose
/// polynomial has vanishing syndromes decodes to its own first `k`
/// symbols with no errors.
pub proof fn lemma_decode_clean_word(w: Seq<u8>, t2: nat, k: nat)
    requires
        t2 + 2 <= w.len(),
        w.len() <= 64,
        k <= w.len(),
        syndromes_vanish(word_poly(w), t2),
    ensures
        rs_decode_word(w, t2, k) == Some((w.subrange(0, k as int), 0nat)),
{
    lemma_decode_codeword(word_poly(w), t2);
    assert(word_poly(word_poly(w)) =~= w);
}

// ---------------------------------------------------------------------------
// Encoding gives codewords
// ---------------------------------------------------------------------------

/// Horner evaluation of a word read from its first symbol, the
/// highest-degree coefficient.
pub open spec fn word_eval(w: Seq<u8>, x: u8) -> u8
    decreases w.len(),
{
    if w.len() == 0 {
        0
    } else {
        gf_add(gf_mul(word_eval(w.drop_last(), x), x), w.last())
    }
}

/// The symbolwise combination a + s * b.
pub open spec fn scale_add(a: Seq<u8>, s: u8, b: Seq<u8>) -> Seq<u8> {
    Seq::new(a.len(), |i: int| gf_add(a[i], gf_mul(s, b[i])))
}

/// Every symbol is a 6-bit value.
pub open spec fn symbols_fit(w: Seq<u8>) -> bool {
    forall|i: int| 0 <= i < w.len() ==> #[trigger] w[i] < 64
}

/// The word of `n` symbols that is one at `r` and zero elsewhere.
pub open spec fn unit_word(n: nat, r: nat) -> Seq<u8> {
    Seq::new(n, |i: int| if i == r { 1u8 } else { 0u8 })
}

/// The first `r` symbols of `w`, the rest set to zero.
pub open spec fn data_prefix(w: Seq<u8>, r: nat) -> Seq<u8> {
    Seq::new(w.len(), |i: int| if i < r { w[i] } else { 0u8 })
}

/// Horner evaluation reads the word as the polynomial `word_poly`.
proof fn lemma_word_eval(w: Seq<u8>, x: u8)
    ensures
        word_eval(w, x) == poly_eval(word_poly(w), x),
    decreases w.len(),
{
    if w.len() > 0 {
        lemma_word_eval(w.drop_last(), x);
        assert(word_poly(w).subrange(1, w.len() as int) =~= word_poly(w.drop_last()));
    }
}

/// Reordering a sum of four symbols.
proof fn lemma_xor_swap(p: u8, q: u8, r: u8, t: u8)
    ensures
        (p ^ q) ^ (r ^ t) == (p ^ r) ^ (q ^ t),
{
    crate::p25::bitwise::lemma_xor_u8(p, q, r ^ t);
    crate::p25::bitwise::lemma_xor_u8(q, r, t);
    crate::p25::bitwise::lemma_xor_u8(r, q, t);
    crate::p25::bitwise::lemma_xor_u8(p, r, q ^ t);
    crate::p25::bitwise::lemma_xor_u8(q, r, 0);
}

/// Horner evaluation of 6-bit symbols at a 6-bit point is a 6-bit value.
proof fn lemma_word_eval_bound(w: Seq<u8>, x: u8)
    requires
        symbols_fit(w),
    ensures
        word_eval(w, x) < 64,
    decreases w.len(),
{
    if w.len() > 0 {
        lemma_word_eval_bound(w.drop_last(), x);
        super::galois::lemma_mul_bound_any(word_eval(w.drop_last(), x), x);
        crate::p25::bitwise::lemma_xor_u8(gf_mul(word_eval(w.drop_last(), x), x), w.last(), 0);
    }
}

/// Horner evaluation is linear in the word.
proof fn lemma_word_eval_linear(a: Seq<u8>, s: u8, b: Seq<u8>, x: u8)
    requires
        a.len() == b.len(),
        symbols_fit(a),
        symbols_fit(b),
        s < 64,
        x < 64,
    ensures
        word_eval(scale_add(a, s, b), x) == gf_add(word_eval(a, x), gf_mul(s, word_eval(b, x))),
    decreases a.len(),
{
    if a.len() > 0 {
        let a1 = a.drop_last();
        let b1 = b.drop_last();
        assert(scale_add(a, s, b).drop_last() =~= scale_add(a1, s, b1));
        lemma_word_eval_linear(a1, s, b1, x);
        let ea = word_eval(a1, x);
        let eb = word_eval(b1, x);
        lemma_word_eval_bound(a1, x);
        lemma_word_eval_bound(b1, x);
        let an = a.last();
        let bn = b.last();
        let sb = gf_mul(s, eb);
        super::galois::lemma_mul_bound_any(s, eb);
        super::galois::lemma_mul_distributive(x, ea, sb);
        super::galois::lemma_mul_commutative(ea, x);
        super::galois::lemma_mul_commutative(sb, x);
        super::galois::lemma_mul_commutative(gf_add(ea, sb), x);
        super::galois::lemma_mul_associative(s, eb, x);
        super::galois::lemma_mul_bound_any(eb, x);
        super::galois::lemma_mul_distributive(s, gf_mul(eb, x), bn);
        lemma_xor_swap(gf_mul(ea, x), gf_mul(s, gf_mul(eb, x)), an, gf_mul(s, bn));
    } else {
        super::galois::lemma_mul_identity(s, 0);
        crate::p25::bitwise::lemma_xor_u8(0, 0, 0);
    }
}

/// Dot products are linear in the data.
proof fn lemma_dot_linear(a: Seq<u8>, s: u8, b: Seq<u8>, row: Seq<u8>, n: nat)
    requires
        a.len() == b.len(),
        n <= a.len(),
        n <= row.len(),
        symbols_fit(a),
        symbols_fit(b),
        symbols_fit(row),
        s < 64,
    ensures
        gf_dot(scale_add(a, s, b), row, n) == gf_add(gf_dot(a, row, n), gf_mul(s, gf_dot(b, row, n))),
    decreases n,
{
    if n == 0 {
        super::galois::lemma_mul_identity(s, 0);
        crate::p25::bitwise::lemma_xor_u8(0, 0, 0);
    } else {
        let m = (n - 1) as nat;
        lemma_dot_linear(a, s, b, row, m);
        let da = gf_dot(a, row, m);
        let db = gf_dot(b, row, m);
        lemma_dot_bound(a, row, m);
        lemma_dot_bound(b, row, m);
        let am = a[n - 1];
        let bm = b[n - 1];
        let rm = row[n - 1];
        super::galois::lemma_mul_bound_any(s, bm);
        super::galois::lemma_mul_distributive(rm, am, gf_mul(s, bm));
        super::galois::lemma_mul_associative(s, bm, rm);
        super::galois::lemma_mul_bound_any(bm, rm);
        super::galois::lemma_mul_distributive(s, db, gf_mul(bm, rm));
        lemma_xor_swap(da, gf_mul(s, db), gf_mul(am, rm), gf_mul(s, gf_mul(bm, rm)));
    }
}

/// Systematic encoding is linear in the data.
proof fn lemma_systematic_linear(a: Seq<u8>, s: u8, b: Seq<u8>, rows: Seq<Seq<u8>>, k: nat)
    requires
        a.len() == b.len(),
        k <= a.len(),
        rows.len() == a.len() - k,
        forall|i: int| 0 <= i < rows.len() ==> (#[trigger] rows[i]).len() == k && symbols_fit(rows[i]),
        symbols_fit(a),
        symbols_fit(b),
        s < 64,
    ensures
        systematic_word(scale_add(a, s, b), rows, k) == scale_add(
            systematic_word(a, rows, k),
            s,
            systematic_word(b, rows, k),
        ),
{
    assert forall|i: int| k <= i < a.len() implies #[trigger] systematic_word(scale_add(a, s, b), rows, k)[i]
        == gf_add(systematic_word(a, rows, k)[i], gf_mul(s, systematic_word(b, rows, k)[i])) by {
        assert(rows[i - k].len() == k && symbols_fit(rows[i - k]));
        lemma_dot_linear(a, s, b, rows[i - k], k);
    }
    assert(systematic_word(scale_add(a, s, b), rows, k) =~= scale_add(
        systematic_word(a, rows, k),
        s,
        systematic_word(b, rows, k),
    ));
}

/// Systematic encoding keeps 6-bit symbols.
proof fn lemma_systematic_fit(a: Seq<u8>, rows: Seq<Seq<u8>>, k: nat)
    requires
        k <= a.len(),
        symbols_fit(a),
    ensures
        symbols_fit(systematic_word(a, rows, k)),
{
    assert forall|i: int| 0 <= i < a.len() implies #[trigger] systematic_word(a, rows, k)[i] < 64 by {
        if i >= k {
            lemma_dot_bound(a, rows[i - k], k);
        }
    }
}

/// The all-zero word evaluates to zero.
proof fn lemma_word_eval_zero(w: Seq<u8>, x: u8)
    requires
        forall|i: int| 0 <= i < w.len() ==> #[trigger] w[i] == 0,
    ensures
        word_eval(w, x) == 0,
    decreases w.len(),
{
    if w.len() > 0 {
        lemma_word_eval_zero(w.drop_last(), x);
        crate::p25::bitwise::lemma_xor_u8(0, 0, 0);
    }
}

/// The dot product of the zero word is zero.
proof fn lemma_dot_zero(a: Seq<u8>, row: Seq<u8>, n: nat)
    requires
        n <= a.len(),
        forall|i: int| 0 <= i < a.len() ==> #[trigger] a[i] == 0,
    ensures
        gf_dot(a, row, n) == 0,
    decreases n,
{
    if n > 0 {
        lemma_dot_zero(a, row, (n - 1) as nat);
        crate::p25::bitwise::lemma_xor_u8(0, 0, 0);
    }
}

/// If the encoding of every unit data word has vanishing syndromes, so has
/// the encoding of every data word: the code is the span of those words.
proof fn lemma_encode_vanishes(data: Seq<u8>, rows: Seq<Seq<u8>>, k: nat, x: u8, r: nat)
    requires
        k <= data.len(),
        r <= k,
        rows.len() == data.len() - k,
        forall|i: int| 0 <= i < rows.len() ==> (#[trigger] rows[i]).len() == k && symbols_fit(rows[i]),
        symbols_fit(data),
        x < 64,
        forall|u: nat| u < k ==> #[trigger] word_eval(systematic_word(unit_word(data.len(), u), rows, k), x) == 0,
    ensures
        word_eval(systematic_word(data_prefix(data, r), rows, k), x) == 0,
    decreases r,
{
    let n = data.len();
    if r == 0 {
        let z = data_prefix(data, 0);
        let w = systematic_word(z, rows, k);
        assert forall|i: int| 0 <= i < w.len() implies #[trigger] w[i] == 0 by {
            if i >= k {
                lemma_dot_zero(z, rows[i - k], k);
            }
        }
        lemma_word_eval_zero(w, x);
    } else {
        let q = (r - 1) as nat;
        lemma_encode_vanishes(data, rows, k, x, q);
        let prev = data_prefix(data, q);
        let unit = unit_word(n, q);
        let s = data[q as int];
        assert forall|i: int| 0 <= i < n implies #[trigger] data_prefix(data, r)[i] == scale_add(prev, s, unit)[i] by {
            super::galois::lemma_mul_identity(s, 1);
            super::galois::lemma_mul_identity(s, 0);
            super::galois::lemma_mul_commutative(s, 0);
            crate::p25::bitwise::lemma_xor_u8(prev[i], 0, 0);
            crate::p25::bitwise::lemma_xor_u8(s, 0, 0);
            crate::p25::bitwise::lemma_xor_u8(0, 0, 0);
        }
        assert(data_prefix(data, r) =~= scale_add(prev, s, unit));
        assert(symbols_fit(prev));
        assert(symbols_fit(unit));
        lemma_systematic_linear(prev, s, unit, rows, k);
        let wp = systematic_word(prev, rows, k);
        let wu = systematic_word(unit, rows, k);
        lemma_systematic_fit(prev, rows, k);
        lemma_systematic_fit(unit, rows, k);
        lemma_word_eval_linear(wp, s, wu, x);
        assert(word_eval(wu, x) == 0);
        super::galois::lemma_mul_identity(s, 0);
        super::galois::lemma_mul_commutative(s, 0);
        crate::p25::bitwise::lemma_xor_u8(0, 0, 0);
    }
}

/// Symbol `i` of the encoding of the unit data word at `u`, written out
/// for the code with `k` data symbols: one at `u` among the data symbols,
/// then column `u` of the generator matrix.
pub open spec fn column_symbol(k: u32, u: u32, i: u32) -> u8 {
    if i < k {
        if i == u {
            1u8
        } else {
            0u8
        }
    } else if k == 12 {
        short::generator_entry((i - 12) as u32, u)
    } else if k == 16 {
        medium::generator_entry((i - 16) as u32, u)
    } else {
        long::generator_entry((i - 20) as u32, u)
    }
}

/// Horner evaluation of the first `n` written-out symbols at alpha^e.
pub open spec fn flat_column_eval(k: u32, u: u32, e: u32, n: u32) -> u8
    decreases n,
{
    if n == 0 {
        0
    } else {
        flat_mul(flat_column_eval(k, u, e, (n - 1) as u32), alpha_power(e)) ^ column_symbol(
            k,
            u,
            (n - 1) as u32,
        )
    }
}

/// The encodings of the unit data words of the short and medium codes
/// vanish at alpha^1 .. alpha^(n-k).
pub proof fn lemma_short_medium_tables()
    by (bit_vector)
    ensures
        flat_column_eval(12, 0, 1, 24) == 0,
        flat_column_eval(12, 0, 2, 24) == 0,
        flat_column_eval(12, 0, 3, 24) == 0,
        flat_column_eval(12, 0, 4, 24) == 0,
        flat_column_eval(12, 0, 5, 24) == 0,
        flat_column_eval(12, 0, 6, 24) == 0,
        flat_column_eval(12, 0, 7, 24) == 0,
        flat_column_eval(12, 0, 8, 24) == 0,
        flat_column_eval(12, 0, 9, 24) == 0,
        flat_column_eval(12, 0, 10, 24) == 0,
        flat_column_eval(12, 0, 11, 24) == 0,
        flat_column_eval(12, 0, 12, 24) == 0,
        flat_column_eval(12, 1, 1, 24) == 0,
        flat_column_eval(12, 1, 2, 24) == 0,
        flat_column_eval(12, 1, 3, 24) == 0,
        flat_column_eval(12, 1, 4, 24) == 0,
        flat_column_eval(12, 1, 5, 24) == 0,
        flat_column_eval(12, 1, 6, 24) == 0,
        flat_column_eval(12, 1, 7, 24) == 0,
        flat_column_eval(12, 1, 8, 24) == 0,
        flat_column_eval(12, 1, 9, 24) == 0,
        flat_column_eval(12, 1, 10, 24) == 0,
        flat_column_eval(12, 1, 11, 24) == 0,
        flat_column_eval(12, 1, 12, 24) == 0,
        flat_column_eval(12, 2, 1, 24) == 0,
        flat_column_eval(12, 2, 2, 24) == 0,
        flat_column_eval(12, 2, 3, 24) == 0,
        flat_column_eval(12, 2, 4, 24) == 0,
        flat_column_eval(12, 2, 5, 24) == 0,
        flat_column_eval(12, 2, 6, 24) == 0,
        flat_column_eval(12, 2, 7, 24) == 0,
        flat_column_eval(12, 2, 8, 24) == 0,
        flat_column_eval(12, 2, 9, 24) == 0,
        flat_column_eval(12, 2, 10, 24) == 0,
        flat_column_eval(12, 2, 11, 24) == 0,
        flat_column_eval(12, 2, 12, 24) == 0,
        flat_column_eval(12, 3, 1, 24) == 0,
        flat_column_eval(12, 3, 2, 24) == 0,
        flat_column_eval(12, 3, 3, 24) == 0,
        flat_column_eval(12, 3, 4, 24) == 0,
        flat_column_eval(12, 3, 5, 24) == 0,
        flat_column_eval(12, 3, 6, 24) == 0,
        flat_column_eval(12, 3, 7, 24) == 0,
        flat_column_eval(12, 3, 8, 24) == 0,
        flat_column_eval(12, 3, 9, 24) == 0,
        flat_column_eval(12, 3, 10, 24) == 0,
        flat_column_eval(12, 3, 11, 24) == 0,
        flat_column_eval(12, 3, 12, 24) == 0,
        flat_column_eval(12, 4, 1, 24) == 0,
        flat_column_eval(12, 4, 2, 24) == 0,
        flat_column_eval(12, 4, 3, 24) == 0,
        flat_column_eval(12, 4, 4, 24) == 0,
        flat_column_eval(12, 4, 5, 24) == 0,
        flat_column_eval(12, 4, 6, 24) == 0,
        flat_column_eval(12, 4, 7, 24) == 0,
        flat_column_eval(12, 4, 8, 24) == 0,
        flat_column_eval(12, 4, 9, 24) == 0,
        flat_column_eval(12, 4, 10, 24) == 0,
        flat_column_eval(12, 4, 11, 24) == 0,
        flat_column_eval(12, 4, 12, 24) == 0,
        flat_column_eval(12, 5, 1, 24) == 0,
        flat_column_eval(12, 5, 2, 24) == 0,
        flat_column_eval(12, 5, 3, 24) == 0,
        flat_column_eval(12, 5, 4, 24) == 0,
        flat_column_eval(12, 5, 5, 24) == 0,
        flat_column_eval(12, 5, 6, 24) == 0,
        flat_column_eval(12, 5, 7, 24) == 0,
        flat_column_eval(12, 5, 8, 24) == 0,
        flat_column_eval(12, 5, 9, 24) == 0,
        flat_column_eval(12, 5, 10, 24) == 0,
        flat_column_eval(12, 5, 11, 24) == 0,
        flat_column_eval(12, 5, 12, 24) == 0,
        flat_column_eval(12, 6, 1, 24) == 0,
        flat_column_eval(12, 6, 2, 24) == 0,
        flat_column_eval(12, 6, 3, 24) == 0,
        flat_column_eval(12, 6, 4, 24) == 0,
        flat_column_eval(12, 6, 5, 24) == 0,
        flat_column_eval(12, 6, 6, 24) == 0,
        flat_column_eval(12, 6, 7, 24) == 0,
        flat_column_eval(12, 6, 8, 24) == 0,
        flat_column_eval(12, 6, 9, 24) == 0,
        flat_column_eval(12, 6, 10, 24) == 0,
        flat_column_eval(12, 6, 11, 24) == 0,
        flat_column_eval(12, 6, 12, 24) == 0,
        flat_column_eval(12, 7, 1, 24) == 0,
        flat_column_eval(12, 7, 2, 24) == 0,
        flat_column_eval(12, 7, 3, 24) == 0,
        flat_column_eval(12, 7, 4, 24) == 0,
        flat_column_eval(12, 7, 5, 24) == 0,
        flat_column_eval(12, 7, 6, 24) == 0,
        flat_column_eval(12, 7, 7, 24) == 0,
        flat_column_eval(12, 7, 8, 24) == 0,
        flat_column_eval(12, 7, 9, 24) == 0,
        flat_column_eval(12, 7, 10, 24) == 0,
        flat_column_eval(12, 7, 11, 24) == 0,
        flat_column_eval(12, 7, 12, 24) == 0,
        flat_column_eval(12, 8, 1, 24) == 0,
        flat_column_eval(12, 8, 2, 24) == 0,
        flat_column_eval(12, 8, 3, 24) == 0,
        flat_column_eval(12, 8, 4, 24) == 0,
        flat_column_eval(12, 8, 5, 24) == 0,
        flat_column_eval(12, 8, 6, 24) == 0,
        flat_column_eval(12, 8, 7, 24) == 0,
        flat_column_eval(12, 8, 8, 24) == 0,
        flat_column_eval(12, 8, 9, 24) == 0,
        flat_column_eval(12, 8, 10, 24) == 0,
        flat_column_eval(12, 8, 11, 24) == 0,
        flat_column_eval(12, 8, 12, 24) == 0,
        flat_column_eval(12, 9, 1, 24) == 0,
        flat_column_eval(12, 9, 2, 24) == 0,
        flat_column_eval(12, 9, 3, 24) == 0,
        flat_column_eval(12, 9, 4, 24) == 0,
        flat_column_eval(12, 9, 5, 24) == 0,
        flat_column_eval(12, 9, 6, 24) == 0,
        flat_column_eval(12, 9, 7, 24) == 0,
        flat_column_eval(12, 9, 8, 24) == 0,
        flat_column_eval(12, 9, 9, 24) == 0,
        flat_column_eval(12, 9, 10, 24) == 0,
        flat_column_eval(12, 9, 11, 24) == 0,
        flat_column_eval(12, 9, 12, 24) == 0,
        flat_column_eval(12, 10, 1, 24) == 0,
        flat_column_eval(12, 10, 2, 24) == 0,
        flat_column_eval(12, 10, 3, 24) == 0,
        flat_column_eval(12, 10, 4, 24) == 0,
        flat_column_eval(12, 10, 5, 24) == 0,
        flat_column_eval(12, 10, 6, 24) == 0,
        flat_column_eval(12, 10, 7, 24) == 0,
        flat_column_eval(12, 10, 8, 24) == 0,
        flat_column_eval(12, 10, 9, 24) == 0,
        flat_column_eval(12, 10, 10, 24) == 0,
        flat_column_eval(12, 10, 11, 24) == 0,
        flat_column_eval(12, 10, 12, 24) == 0,
        flat_column_eval(12, 11, 1, 24) == 0,
        flat_column_eval(12, 11, 2, 24) == 0,
        flat_column_eval(12, 11, 3, 24) == 0,
        flat_column_eval(12, 11, 4, 24) == 0,
        flat_column_eval(12, 11, 5, 24) == 0,
        flat_column_eval(12, 11, 6, 24) == 0,
        flat_column_eval(12, 11, 7, 24) == 0,
        flat_column_eval(12, 11, 8, 24) == 0,
        flat_column_eval(12, 11, 9, 24) == 0,
        flat_column_eval(12, 11, 10, 24) == 0,
        flat_column_eval(12, 11, 11, 24) == 0,
        flat_column_eval(12, 11, 12, 24) == 0,
        flat_column_eval(16, 0, 1, 24) == 0,
        flat_column_eval(16, 0, 2, 24) == 0,
        flat_column_eval(16, 0, 3, 24) == 0,
        flat_column_eval(16, 0, 4, 24) == 0,
        flat_column_eval(16, 0, 5, 24) == 0,
        flat_column_eval(16, 0, 6, 24) == 0,
        flat_column_eval(16, 0, 7, 24) == 0,
        flat_column_eval(16, 0, 8, 24) == 0,
        flat_column_eval(16, 1, 1, 24) == 0,
        flat_column_eval(16, 1, 2, 24) == 0,
        flat_column_eval(16, 1, 3, 24) == 0,
        flat_column_eval(16, 1, 4, 24) == 0,
        flat_column_eval(16, 1, 5, 24) == 0,
        flat_column_eval(16, 1, 6, 24) == 0,
        flat_column_eval(16, 1, 7, 24) == 0,
        flat_column_eval(16, 1, 8, 24) == 0,
        flat_column_eval(16, 2, 1, 24) == 0,
        flat_column_eval(16, 2, 2, 24) == 0,
        flat_column_eval(16, 2, 3, 24) == 0,
        flat_column_eval(16, 2, 4, 24) == 0,
        flat_column_eval(16, 2, 5, 24) == 0,
        flat_column_eval(16, 2, 6, 24) == 0,
        flat_column_eval(16, 2, 7, 24) == 0,
        flat_column_eval(16, 2, 8, 24) == 0,
        flat_column_eval(16, 3, 1, 24) == 0,
        flat_column_eval(16, 3, 2, 24) == 0,
        flat_column_eval(16, 3, 3, 24) == 0,
        flat_column_eval(16, 3, 4, 24) == 0,
        flat_column_eval(16, 3, 5, 24) == 0,
        flat_column_eval(16, 3, 6, 24) == 0,
        flat_column_eval(16, 3, 7, 24) == 0,
        flat_column_eval(16, 3, 8, 24) == 0,
        flat_column_eval(16, 4, 1, 24) == 0,
        flat_column_eval(16, 4, 2, 24) == 0,
        flat_column_eval(16, 4, 3, 24) == 0,
        flat_column_eval(16, 4, 4, 24) == 0,
        flat_column_eval(16, 4, 5, 24) == 0,
        flat_column_eval(16, 4, 6, 24) == 0,
        flat_column_eval(16, 4, 7, 24) == 0,
        flat_column_eval(16, 4, 8, 24) == 0,
        flat_column_eval(16, 5, 1, 24) == 0,
        flat_column_eval(16, 5, 2, 24) == 0,
        flat_column_eval(16, 5, 3, 24) == 0,
        flat_column_eval(16, 5, 4, 24) == 0,
        flat_column_eval(16, 5, 5, 24) == 0,
        flat_column_eval(16, 5, 6, 24) == 0,
        flat_column_eval(16, 5, 7, 24) == 0,
        flat_column_eval(16, 5, 8, 24) == 0,
        flat_column_eval(16, 6, 1, 24) == 0,
        flat_column_eval(16, 6, 2, 24) == 0,
        flat_column_eval(16, 6, 3, 24) == 0,
        flat_column_eval(16, 6, 4, 24) == 0,
        flat_column_eval(16, 6, 5, 24) == 0,
        flat_column_eval(16, 6, 6, 24) == 0,
        flat_column_eval(16, 6, 7, 24) == 0,
        flat_column_eval(16, 6, 8, 24) == 0,
        flat_column_eval(16, 7, 1, 24) == 0,
        flat_column_eval(16, 7, 2, 24) == 0,
        flat_column_eval(16, 7, 3, 24) == 0,
        flat_column_eval(16, 7, 4, 24) == 0,
        flat_column_eval(16, 7, 5, 24) == 0,
        flat_column_eval(16, 7, 6, 24) == 0,
        flat_column_eval(16, 7, 7, 24) == 0,
        flat_column_eval(16, 7, 8, 24) == 0,
        flat_column_eval(16, 8, 1, 24) == 0,
        flat_column_eval(16, 8, 2, 24) == 0,
        flat_column_eval(16, 8, 3, 24) == 0,
        flat_column_eval(16, 8, 4, 24) == 0,
        flat_column_eval(16, 8, 5, 24) == 0,
        flat_column_eval(16, 8, 6, 24) == 0,
        flat_column_eval(16, 8, 7, 24) == 0,
        flat_column_eval(16, 8, 8, 24) == 0,
        flat_column_eval(16, 9, 1, 24) == 0,
        flat_column_eval(16, 9, 2, 24) == 0,
        flat_column_eval(16, 9, 3, 24) == 0,
        flat_column_eval(16, 9, 4, 24) == 0,
        flat_column_eval(16, 9, 5, 24) == 0,
        flat_column_eval(16, 9, 6, 24) == 0,
        flat_column_eval(16, 9, 7, 24) == 0,
        flat_column_eval(16, 9, 8, 24) == 0,
        flat_column_eval(16, 10, 1, 24) == 0,
        flat_column_eval(16, 10, 2, 24) == 0,
        flat_column_eval(16, 10, 3, 24) == 0,
        flat_column_eval(16, 10, 4, 24) == 0,
        flat_column_eval(16, 10, 5, 24) == 0,
        flat_column_eval(16, 10, 6, 24) == 0,
        flat_column_eval(16, 10, 7, 24) == 0,
        flat_column_eval(16, 10, 8, 24) == 0,
        flat_column_eval(16, 11, 1, 24) == 0,
        flat_column_eval(16, 11, 2, 24) == 0,
        flat_column_eval(16, 11, 3, 24) == 0,
        flat_column_eval(16, 11, 4, 24) == 0,
        flat_column_eval(16, 11, 5, 24) == 0,
        flat_column_eval(16, 11, 6, 24) == 0,
        flat_column_eval(16, 11, 7, 24) == 0,
        flat_column_eval(16, 11, 8, 24) == 0,
        flat_column_eval(16, 12, 1, 24) == 0,
        flat_column_eval(16, 12, 2, 24) == 0,
        flat_column_eval(16, 12, 3, 24) == 0,
        flat_column_eval(16, 12, 4, 24) == 0,
        flat_column_eval(16, 12, 5, 24) == 0,
        flat_column_eval(16, 12, 6, 24) == 0,
        flat_column_eval(16, 12, 7, 24) == 0,
        flat_column_eval(16, 12, 8, 24) == 0,
        flat_column_eval(16, 13, 1, 24) == 0,
        flat_column_eval(16, 13, 2, 24) == 0,
        flat_column_eval(16, 13, 3, 24) == 0,
        flat_column_eval(16, 13, 4, 24) == 0,
        flat_column_eval(16, 13, 5, 24) == 0,
        flat_column_eval(16, 13, 6, 24) == 0,
        flat_column_eval(16, 13, 7, 24) == 0,
        flat_column_eval(16, 13, 8, 24) == 0,
        flat_column_eval(16, 14, 1, 24) == 0,
        flat_column_eval(16, 14, 2, 24) == 0,
        flat_column_eval(16, 14, 3, 24) == 0,
        flat_column_eval(16, 14, 4, 24) == 0,
        flat_column_eval(16, 14, 5, 24) == 0,
        flat_column_eval(16, 14, 6, 24) == 0,
        flat_column_eval(16, 14, 7, 24) == 0,
        flat_column_eval(16, 14, 8, 24) == 0,
        flat_column_eval(16, 15, 1, 24) == 0,
        flat_column_eval(16, 15, 2, 24) == 0,
        flat_column_eval(16, 15, 3, 24) == 0,
        flat_column_eval(16, 15, 4, 24) == 0,
        flat_column_eval(16, 15, 5, 24) == 0,
        flat_column_eval(16, 15, 6, 24) == 0,
        flat_column_eval(16, 15, 7, 24) == 0,
        flat_column_eval(16, 15, 8, 24) == 0,
{
}

/// The encodings of the unit data words of the long code vanish at
/// alpha^1 .. alpha^16.
pub proof fn lemma_long_table()
    by (bit_vector)
    ensures
        flat_column_eval(20, 0, 1, 36) == 0,
        flat_column_eval(20, 0, 2, 36) == 0,
        flat_column_eval(20, 0, 3, 36) == 0,
        flat_column_eval(20, 0, 4, 36) == 0,
        flat_column_eval(20, 0, 5, 36) == 0,
        flat_column_eval(20, 0, 6, 36) == 0,
        flat_column_eval(20, 0, 7, 36) == 0,
        flat_column_eval(20, 0, 8, 36) == 0,
        flat_column_eval(20, 0, 9, 36) == 0,
        flat_column_eval(20, 0, 10, 36) == 0,
        flat_column_eval(20, 0, 11, 36) == 0,
        flat_column_eval(20, 0, 12, 36) == 0,
        flat_column_eval(20, 0, 13, 36) == 0,
        flat_column_eval(20, 0, 14, 36) == 0,
        flat_column_eval(20, 0, 15, 36) == 0,
        flat_column_eval(20, 0, 16, 36) == 0,
        flat_column_eval(20, 1, 1, 36) == 0,
        flat_column_eval(20, 1, 2, 36) == 0,
        flat_column_eval(20, 1, 3, 36) == 0,
        flat_column_eval(20, 1, 4, 36) == 0,
        flat_column_eval(20, 1, 5, 36) == 0,
        flat_column_eval(20, 1, 6, 36) == 0,
        flat_column_eval(20, 1, 7, 36) == 0,
        flat_column_eval(20, 1, 8, 36) == 0,
        flat_column_eval(20, 1, 9, 36) == 0,
        flat_column_eval(20, 1, 10, 36) == 0,
        flat_column_eval(20, 1, 11, 36) == 0,
        flat_column_eval(20, 1, 12, 36) == 0,
        flat_column_eval(20, 1, 13, 36) == 0,
        flat_column_eval(20, 1, 14, 36) == 0,
        flat_column_eval(20, 1, 15, 36) == 0,
        flat_column_eval(20, 1, 16, 36) == 0,
        flat_column_eval(20, 2, 1, 36) == 0,
        flat_column_eval(20, 2, 2, 36) == 0,
        flat_column_eval(20, 2, 3, 36) == 0,
        flat_column_eval(20, 2, 4, 36) == 0,
        flat_column_eval(20, 2, 5, 36) == 0,
        flat_column_eval(20, 2, 6, 36) == 0,
        flat_column_eval(20, 2, 7, 36) == 0,
        flat_column_eval(20, 2, 8, 36) == 0,
        flat_column_eval(20, 2, 9, 36) == 0,
        flat_column_eval(20, 2, 10, 36) == 0,
        flat_column_eval(20, 2, 11, 36) == 0,
        flat_column_eval(20, 2, 12, 36) == 0,
        flat_column_eval(20, 2, 13, 36) == 0,
        flat_column_eval(20, 2, 14, 36) == 0,
        flat_column_eval(20, 2, 15, 36) == 0,
        flat_column_eval(20, 2, 16, 36) == 0,
        flat_column_eval(20, 3, 1, 36) == 0,
        flat_column_eval(20, 3, 2, 36) == 0,
        flat_column_eval(20, 3, 3, 36) == 0,
        flat_column_eval(20, 3, 4, 36) == 0,
        flat_column_eval(20, 3, 5, 36) == 0,
        flat_column_eval(20, 3, 6, 36) == 0,
        flat_column_eval(20, 3, 7, 36) == 0,
        flat_column_eval(20, 3, 8, 36) == 0,
        flat_column_eval(20, 3, 9, 36) == 0,
        flat_column_eval(20, 3, 10, 36) == 0,
        flat_column_eval(20, 3, 11, 36) == 0,
        flat_column_eval(20, 3, 12, 36) == 0,
        flat_column_eval(20, 3, 13, 36) == 0,
        flat_column_eval(20, 3, 14, 36) == 0,
        flat_column_eval(20, 3, 15, 36) == 0,
        flat_column_eval(20, 3, 16, 36) == 0,
        flat_column_eval(20, 4, 1, 36) == 0,
        flat_column_eval(20, 4, 2, 36) == 0,
        flat_column_eval(20, 4, 3, 36) == 0,
        flat_column_eval(20, 4, 4, 36) == 0,
        flat_column_eval(20, 4, 5, 36) == 0,
        flat_column_eval(20, 4, 6, 36) == 0,
        flat_column_eval(20, 4, 7, 36) == 0,
        flat_column_eval(20, 4, 8, 36) == 0,
        flat_column_eval(20, 4, 9, 36) == 0,
        flat_column_eval(20, 4, 10, 36) == 0,
        flat_column_eval(20, 4, 11, 36) == 0,
        flat_column_eval(20, 4, 12, 36) == 0,
        flat_column_eval(20, 4, 13, 36) == 0,
        flat_column_eval(20, 4, 14, 36) == 0,
        flat_column_eval(20, 4, 15, 36) == 0,
        flat_column_eval(20, 4, 16, 36) == 0,
        flat_column_eval(20, 5, 1, 36) == 0,
        flat_column_eval(20, 5, 2, 36) == 0,
        flat_column_eval(20, 5, 3, 36) == 0,
        flat_column_eval(20, 5, 4, 36) == 0,
        flat_column_eval(20, 5, 5, 36) == 0,
        flat_column_eval(20, 5, 6, 36) == 0,
        flat_column_eval(20, 5, 7, 36) == 0,
        flat_column_eval(20, 5, 8, 36) == 0,
        flat_column_eval(20, 5, 9, 36) == 0,
        flat_column_eval(20, 5, 10, 36) == 0,
        flat_column_eval(20, 5, 11, 36) == 0,
        flat_column_eval(20, 5, 12, 36) == 0,
        flat_column_eval(20, 5, 13, 36) == 0,
        flat_column_eval(20, 5, 14, 36) == 0,
        flat_column_eval(20, 5, 15, 36) == 0,
        flat_column_eval(20, 5, 16, 36) == 0,
        flat_column_eval(20, 6, 1, 36) == 0,
        flat_column_eval(20, 6, 2, 36) == 0,
        flat_column_eval(20, 6, 3, 36) == 0,
        flat_column_eval(20, 6, 4, 36) == 0,
        flat_column_eval(20, 6, 5, 36) == 0,
        flat_column_eval(20, 6, 6, 36) == 0,
        flat_column_eval(20, 6, 7, 36) == 0,
        flat_column_eval(20, 6, 8, 36) == 0,
        flat_column_eval(20, 6, 9, 36) == 0,
        flat_column_eval(20, 6, 10, 36) == 0,
        flat_column_eval(20, 6, 11, 36) == 0,
        flat_column_eval(20, 6, 12, 36) == 0,
        flat_column_eval(20, 6, 13, 36) == 0,
        flat_column_eval(20, 6, 14, 36) == 0,
        flat_column_eval(20, 6, 15, 36) == 0,
        flat_column_eval(20, 6, 16, 36) == 0,
        flat_column_eval(20, 7, 1, 36) == 0,
        flat_column_eval(20, 7, 2, 36) == 0,
        flat_column_eval(20, 7, 3, 36) == 0,
        flat_column_eval(20, 7, 4, 36) == 0,
        flat_column_eval(20, 7, 5, 36) == 0,
        flat_column_eval(20, 7, 6, 36) == 0,
        flat_column_eval(20, 7, 7, 36) == 0,
        flat_column_eval(20, 7, 8, 36) == 0,
        flat_column_eval(20, 7, 9, 36) == 0,
        flat_column_eval(20, 7, 10, 36) == 0,
        flat_column_eval(20, 7, 11, 36) == 0,
        flat_column_eval(20, 7, 12, 36) == 0,
        flat_column_eval(20, 7, 13, 36) == 0,
        flat_column_eval(20, 7, 14, 36) == 0,
        flat_column_eval(20, 7, 15, 36) == 0,
        flat_column_eval(20, 7, 16, 36) == 0,
        flat_column_eval(20, 8, 1, 36) == 0,
        flat_column_eval(20, 8, 2, 36) == 0,
        flat_column_eval(20, 8, 3, 36) == 0,
        flat_column_eval(20, 8, 4, 36) == 0,
        flat_column_eval(20, 8, 5, 36) == 0,
        flat_column_eval(20, 8, 6, 36) == 0,
        flat_column_eval(20, 8, 7, 36) == 0,
        flat_column_eval(20, 8, 8, 36) == 0,
        flat_column_eval(20, 8, 9, 36) == 0,
        flat_column_eval(20, 8, 10, 36) == 0,
        flat_column_eval(20, 8, 11, 36) == 0,
        flat_column_eval(20, 8, 12, 36) == 0,
        flat_column_eval(20, 8, 13, 36) == 0,
        flat_column_eval(20, 8, 14, 36) == 0,
        flat_column_eval(20, 8, 15, 36) == 0,
        flat_column_eval(20, 8, 16, 36) == 0,
        flat_column_eval(20, 9, 1, 36) == 0,
        flat_column_eval(20, 9, 2, 36) == 0,
        flat_column_eval(20, 9, 3, 36) == 0,
        flat_column_eval(20, 9, 4, 36) == 0,
        flat_column_eval(20, 9, 5, 36) == 0,
        flat_column_eval(20, 9, 6, 36) == 0,
        flat_column_eval(20, 9, 7, 36) == 0,
        flat_column_eval(20, 9, 8, 36) == 0,
        flat_column_eval(20, 9, 9, 36) == 0,
        flat_column_eval(20, 9, 10, 36) == 0,
        flat_column_eval(20, 9, 11, 36) == 0,
        flat_column_eval(20, 9, 12, 36) == 0,
        flat_column_eval(20, 9, 13, 36) == 0,
        flat_column_eval(20, 9, 14, 36) == 0,
        flat_column_eval(20, 9, 15, 36) == 0,
        flat_column_eval(20, 9, 16, 36) == 0,
        flat_column_eval(20, 10, 1, 36) == 0,
        flat_column_eval(20, 10, 2, 36) == 0,
        flat_column_eval(20, 10, 3, 36) == 0,
        flat_column_eval(20, 10, 4, 36) == 0,
        flat_column_eval(20, 10, 5, 36) == 0,
        flat_column_eval(20, 10, 6, 36) == 0,
        flat_column_eval(20, 10, 7, 36) == 0,
        flat_column_eval(20, 10, 8, 36) == 0,
        flat_column_eval(20, 10, 9, 36) == 0,
        flat_column_eval(20, 10, 10, 36) == 0,
        flat_column_eval(20, 10, 11, 36) == 0,
        flat_column_eval(20, 10, 12, 36) == 0,
        flat_column_eval(20, 10, 13, 36) == 0,
        flat_column_eval(20, 10, 14, 36) == 0,
        flat_column_eval(20, 10, 15, 36) == 0,
        flat_column_eval(20, 10, 16, 36) == 0,
        flat_column_eval(20, 11, 1, 36) == 0,
        flat_column_eval(20, 11, 2, 36) == 0,
        flat_column_eval(20, 11, 3, 36) == 0,
        flat_column_eval(20, 11, 4, 36) == 0,
        flat_column_eval(20, 11, 5, 36) == 0,
        flat_column_eval(20, 11, 6, 36) == 0,
        flat_column_eval(20, 11, 7, 36) == 0,
        flat_column_eval(20, 11, 8, 36) == 0,
        flat_column_eval(20, 11, 9, 36) == 0,
        flat_column_eval(20, 11, 10, 36) == 0,
        flat_column_eval(20, 11, 11, 36) == 0,
        flat_column_eval(20, 11, 12, 36) == 0,
        flat_column_eval(20, 11, 13, 36) == 0,
        flat_column_eval(20, 11, 14, 36) == 0,
        flat_column_eval(20, 11, 15, 36) == 0,
        flat_column_eval(20, 11, 16, 36) == 0,
        flat_column_eval(20, 12, 1, 36) == 0,
        flat_column_eval(20, 12, 2, 36) == 0,
        flat_column_eval(20, 12, 3, 36) == 0,
        flat_column_eval(20, 12, 4, 36) == 0,
        flat_column_eval(20, 12, 5, 36) == 0,
        flat_column_eval(20, 12, 6, 36) == 0,
        flat_column_eval(20, 12, 7, 36) == 0,
        flat_column_eval(20, 12, 8, 36) == 0,
        flat_column_eval(20, 12, 9, 36) == 0,
        flat_column_eval(20, 12, 10, 36) == 0,
        flat_column_eval(20, 12, 11, 36) == 0,
        flat_column_eval(20, 12, 12, 36) == 0,
        flat_column_eval(20, 12, 13, 36) == 0,
        flat_column_eval(20, 12, 14, 36) == 0,
        flat_column_eval(20, 12, 15, 36) == 0,
        flat_column_eval(20, 12, 16, 36) == 0,
        flat_column_eval(20, 13, 1, 36) == 0,
        flat_column_eval(20, 13, 2, 36) == 0,
        flat_column_eval(20, 13, 3, 36) == 0,
        flat_column_eval(20, 13, 4, 36) == 0,
        flat_column_eval(20, 13, 5, 36) == 0,
        flat_column_eval(20, 13, 6, 36) == 0,
        flat_column_eval(20, 13, 7, 36) == 0,
        flat_column_eval(20, 13, 8, 36) == 0,
        flat_column_eval(20, 13, 9, 36) == 0,
        flat_column_eval(20, 13, 10, 36) == 0,
        flat_column_eval(20, 13, 11, 36) == 0,
        flat_column_eval(20, 13, 12, 36) == 0,
        flat_column_eval(20, 13, 13, 36) == 0,
        flat_column_eval(20, 13, 14, 36) == 0,
        flat_column_eval(20, 13, 15, 36) == 0,
        flat_column_eval(20, 13, 16, 36) == 0,
        flat_column_eval(20, 14, 1, 36) == 0,
        flat_column_eval(20, 14, 2, 36) == 0,
        flat_column_eval(20, 14, 3, 36) == 0,
        flat_column_eval(20, 14, 4, 36) == 0,
        flat_column_eval(20, 14, 5, 36) == 0,
        flat_column_eval(20, 14, 6, 36) == 0,
        flat_column_eval(20, 14, 7, 36) == 0,
        flat_column_eval(20, 14, 8, 36) == 0,
        flat_column_eval(20, 14, 9, 36) == 0,
        flat_column_eval(20, 14, 10, 36) == 0,
        flat_column_eval(20, 14, 11, 36) == 0,
        flat_column_eval(20, 14, 12, 36) == 0,
        flat_column_eval(20, 14, 13, 36) == 0,
        flat_column_eval(20, 14, 14, 36) == 0,
        flat_column_eval(20, 14, 15, 36) == 0,
        flat_column_eval(20, 14, 16, 36) == 0,
        flat_column_eval(20, 15, 1, 36) == 0,
        flat_column_eval(20, 15, 2, 36) == 0,
        flat_column_eval(20, 15, 3, 36) == 0,
        flat_column_eval(20, 15, 4, 36) == 0,
        flat_column_eval(20, 15, 5, 36) == 0,
        flat_column_eval(20, 15, 6, 36) == 0,
        flat_column_eval(20, 15, 7, 36) == 0,
        flat_column_eval(20, 15, 8, 36) == 0,
        flat_column_eval(20, 15, 9, 36) == 0,
        flat_column_eval(20, 15, 10, 36) == 0,
        flat_column_eval(20, 15, 11, 36) == 0,
        flat_column_eval(20, 15, 12, 36) == 0,
        flat_column_eval(20, 15, 13, 36) == 0,
        flat_column_eval(20, 15, 14, 36) == 0,
        flat_column_eval(20, 15, 15, 36) == 0,
        flat_column_eval(20, 15, 16, 36) == 0,
        flat_column_eval(20, 16, 1, 36) == 0,
        flat_column_eval(20, 16, 2, 36) == 0,
        flat_column_eval(20, 16, 3, 36) == 0,
        flat_column_eval(20, 16, 4, 36) == 0,
        flat_column_eval(20, 16, 5, 36) == 0,
        flat_column_eval(20, 16, 6, 36) == 0,
        flat_column_eval(20, 16, 7, 36) == 0,
        flat_column_eval(20, 16, 8, 36) == 0,
        flat_column_eval(20, 16, 9, 36) == 0,
        flat_column_eval(20, 16, 10, 36) == 0,
        flat_column_eval(20, 16, 11, 36) == 0,
        flat_column_eval(20, 16, 12, 36) == 0,
        flat_column_eval(20, 16, 13, 36) == 0,
        flat_column_eval(20, 16, 14, 36) == 0,
        flat_column_eval(20, 16, 15, 36) == 0,
        flat_column_eval(20, 16, 16, 36) == 0,
        flat_column_eval(20, 17, 1, 36) == 0,
        flat_column_eval(20, 17, 2, 36) == 0,
        flat_column_eval(20, 17, 3, 36) == 0,
        flat_column_eval(20, 17, 4, 36) == 0,
        flat_column_eval(20, 17, 5, 36) == 0,
        flat_column_eval(20, 17, 6, 36) == 0,
        flat_column_eval(20, 17, 7, 36) == 0,
        flat_column_eval(20, 17, 8, 36) == 0,
        flat_column_eval(20, 17, 9, 36) == 0,
        flat_column_eval(20, 17, 10, 36) == 0,
        flat_column_eval(20, 17, 11, 36) == 0,
        flat_column_eval(20, 17, 12, 36) == 0,
        flat_column_eval(20, 17, 13, 36) == 0,
        flat_column_eval(20, 17, 14, 36) == 0,
        flat_column_eval(20, 17, 15, 36) == 0,
        flat_column_eval(20, 17, 16, 36) == 0,
        flat_column_eval(20, 18, 1, 36) == 0,
        flat_column_eval(20, 18, 2, 36) == 0,
        flat_column_eval(20, 18, 3, 36) == 0,
        flat_column_eval(20, 18, 4, 36) == 0,
        flat_column_eval(20, 18, 5, 36) == 0,
        flat_column_eval(20, 18, 6, 36) == 0,
        flat_column_eval(20, 18, 7, 36) == 0,
        flat_column_eval(20, 18, 8, 36) == 0,
        flat_column_eval(20, 18, 9, 36) == 0,
        flat_column_eval(20, 18, 10, 36) == 0,
        flat_column_eval(20, 18, 11, 36) == 0,
        flat_column_eval(20, 18, 12, 36) == 0,
        flat_column_eval(20, 18, 13, 36) == 0,
        flat_column_eval(20, 18, 14, 36) == 0,
        flat_column_eval(20, 18, 15, 36) == 0,
        flat_column_eval(20, 18, 16, 36) == 0,
        flat_column_eval(20, 19, 1, 36) == 0,
        flat_column_eval(20, 19, 2, 36) == 0,
        flat_column_eval(20, 19, 3, 36) == 0,
        flat_column_eval(20, 19, 4, 36) == 0,
        flat_column_eval(20, 19, 5, 36) == 0,
        flat_column_eval(20, 19, 6, 36) == 0,
        flat_column_eval(20, 19, 7, 36) == 0,
        flat_column_eval(20, 19, 8, 36) == 0,
        flat_column_eval(20, 19, 9, 36) == 0,
        flat_column_eval(20, 19, 10, 36) == 0,
        flat_column_eval(20, 19, 11, 36) == 0,
        flat_column_eval(20, 19, 12, 36) == 0,
        flat_column_eval(20, 19, 13, 36) == 0,
        flat_column_eval(20, 19, 14, 36) == 0,
        flat_column_eval(20, 19, 15, 36) == 0,
        flat_column_eval(20, 19, 16, 36) == 0,
{
}

/// The dot product with a unit word picks one entry.
proof fn lemma_dot_unit(len: nat, u: nat, row: Seq<u8>, n: nat)
    requires
        n <= len,
        u < len,
        symbols_fit(row),
        n <= row.len(),
    ensures
        gf_dot(unit_word(len, u), row, n) == if u < n { row[u as int] } else { 0u8 },
    decreases n,
{
    if n > 0 {
        let m = (n - 1) as nat;
        lemma_dot_unit(len, u, row, m);
        let r = row[m as int];
        super::galois::lemma_mul_identity(r, 1);
        super::galois::lemma_mul_commutative(r, 1);
        super::galois::lemma_mul_commutative(r, 0);
        super::galois::lemma_mul_identity(r, 0);
        crate::p25::bitwise::lemma_xor_u8(0, r, 0);
        crate::p25::bitwise::lemma_xor_u8(r, 0, 0);
        crate::p25::bitwise::lemma_xor_u8(0, 0, 0);
        if u < m {
            crate::p25::bitwise::lemma_xor_u8(row[u as int], 0, 0);
        }
    }
}

/// Horner evaluation of the encoding of a unit data word agrees with the
/// written-out evaluation.
proof fn lemma_column_eval(k: u32, len: nat, rows: Seq<Seq<u8>>, u: u32, e: u32, n: u32)
    requires
        k <= len,
        u < k,
        1 <= e < 63,
        n <= len,
        len < 0x1_0000,
        rows.len() == len - k,
        forall|i: int| 0 <= i < rows.len() ==> (#[trigger] rows[i]).len() == k && symbols_fit(rows[i]),
        forall|i: int| k <= i < len ==> #[trigger] rows[i - k][u as int] == column_symbol(k, u, i as u32),
    ensures
        word_eval(systematic_word(unit_word(len, u as nat), rows, k as nat).subrange(0, n as int), gf_exp(e as nat) as u8)
            == flat_column_eval(k, u, e, n),
    decreases n,
{
    if n > 0 {
        let m = (n - 1) as u32;
        lemma_column_eval(k, len, rows, u, e, m);
        let w = systematic_word(unit_word(len, u as nat), rows, k as nat);
        assert(w.subrange(0, n as int).drop_last() =~= w.subrange(0, m as int));
        let x = gf_exp(e as nat) as u8;
        lemma_exp_bound(e as nat);
        super::galois::lemma_alpha_power(e);
        let prev = word_eval(w.subrange(0, m as int), x);
        lemma_systematic_fit(unit_word(len, u as nat), rows, k as nat);
        assert(symbols_fit(w.subrange(0, m as int)));
        lemma_word_eval_bound(w.subrange(0, m as int), x);
        super::galois::lemma_flat_mul(prev, x);
        if m >= k {
            assert(rows[m - k].len() == k && symbols_fit(rows[m - k]));
            lemma_dot_unit(len, u as nat, rows[m - k], k as nat);
            assert(w[m as int] == rows[m - k][u as int]);
        }
        assert(w.subrange(0, n as int).last() == column_symbol(k, u, m));
    }
}

/// Every systematic encoding has vanishing syndromes when the encodings of
/// the unit data words have.
pub proof fn lemma_encode_codeword(data: Seq<u8>, rows: Seq<Seq<u8>>, k: nat, t2: nat)
    requires
        k <= data.len(),
        rows.len() == data.len() - k,
        forall|i: int| 0 <= i < rows.len() ==> (#[trigger] rows[i]).len() == k && symbols_fit(rows[i]),
        symbols_fit(data),
        forall|u: nat, j: nat| u < k && j < t2 ==> #[trigger] word_eval(
            systematic_word(unit_word(data.len(), u), rows, k),
            gf_exp(j + 1) as u8,
        ) == 0,
    ensures
        syndromes_vanish(word_poly(systematic_word(data, rows, k)), t2),
{
    let w = systematic_word(data, rows, k);
    assert forall|j: int| 0 <= j < t2 implies #[trigger] poly_eval(word_poly(w), gf_exp((j + 1) as nat) as u8) == 0 by {
        let x = gf_exp((j + 1) as nat) as u8;
        lemma_exp_bound((j + 1) as nat);
        assert forall|u: nat| u < k implies #[trigger] word_eval(systematic_word(unit_word(data.len(), u), rows, k), x) == 0 by {
            assert(word_eval(systematic_word(unit_word(data.len(), u), rows, k), gf_exp((j as nat) + 1) as u8) == 0);
        }
        lemma_encode_vanishes(data, rows, k, x, k);
        assert forall|i: int| 0 <= i < k implies data_prefix(data, k)[i] == data[i] by {}
        assert(data_prefix(data, k).subrange(0, k as int) =~= data.subrange(0, k as int));
        assert forall|i: int| 0 <= i < data.len() implies #[trigger] systematic_word(data_prefix(data, k), rows, k)[i] == w[i] by {
            if i >= k {
                gf_dot_prefix(data_prefix(data, k), data, rows[i - k], k);
            }
        }
        assert(systematic_word(data_prefix(data, k), rows, k) =~= w);
        lemma_word_eval(w, x);
    }
}

// ---------------------------------------------------------------------------
// Shared encode/decode implementation
// ---------------------------------------------------------------------------

/// Parity symbol: the dot product of the first `k` symbols of `buf` with
/// `row`.
fn parity_symbol<const N: usize>(buf: &[Hexbit; N], row: &[u8], k: usize) -> (r: Hexbit)
    requires
        k <= N,
        row@.len() == k,
        forall|m: int| 0 <= m < k ==> #[trigger] row@[m] < 64,
    ensures
        r@ == gf_dot(hexbit_values(buf@), row@, k as nat),
{
    let mut sum = Codeword::default();
    let mut j: usize = 0;
    while j < k
        invariant
            k <= N,
            row@.len() == k,
            forall|m: int| 0 <= m < k ==> #[trigger] row@[m] < 64,
            buf@.len() == N,
            j <= k,
            sum@ == gf_dot(hexbit_values(buf@), row@, j as nat),
        decreases k - j,
    {
        let d = buf[j];
        let col = row[j];
        let term = Codeword::new(d.bits()) * Codeword::new(col);
        let next = sum + term;
        proof {
            assert(hexbit_values(buf@)[j as int] == d@);
            assert(col < 64);
            lemma_codeword_bound(next);
            assert(next@ == gf_add(sum@, term@));
        }
        sum = next;
        j = j + 1;
    }
    proof {
        lemma_codeword_bound(sum);
    }
    Hexbit::new(sum.bits())
}

/// Write the parity symbols of the systematic encoding: symbol `k + i`
/// becomes the dot product of the data with `rows[i]`.
fn encode_with<const N: usize>(buf: &mut [Hexbit; N], rows: &Vec<Vec<u8>>, k: usize)
    requires
        k <= N,
        rows@.len() == N - k,
        forall|i: int| 0 <= i < rows@.len() ==> (#[trigger] rows@[i])@.len() == k,
        forall|i: int, m: int| 0 <= i < rows@.len() && 0 <= m < k ==> #[trigger] rows@[i]@[m] < 64,
    ensures
        hexbit_values(final(buf)@) == systematic_word(
            hexbit_values(old(buf)@),
            rows@.map_values(|r: Vec<u8>| r@),
            k as nat,
        ),
{
    let ghost orig = hexbit_values(buf@);
    let mut i: usize = 0;
    while i < N - k
        invariant
            k <= N,
            rows@.len() == N - k,
            forall|m: int| 0 <= m < rows@.len() ==> (#[trigger] rows@[m])@.len() == k,
            forall|a: int, m: int| 0 <= a < rows@.len() && 0 <= m < k ==> #[trigger] rows@[a]@[m] < 64,
            i <= N - k,
            buf@.len() == N,
            forall|m: int| 0 <= m < k + i ==> #[trigger] hexbit_values(buf@)[m] == systematic_word(
                orig,
                rows@.map_values(|r: Vec<u8>| r@),
                k as nat,
            )[m],
            forall|m: int| k + i <= m < N ==> #[trigger] hexbit_values(buf@)[m] == orig[m],
            orig.len() == N,
        decreases N - k - i,
    {
        let row = &rows[i];
        let ghost before = hexbit_values(buf@);
        assert(before.subrange(0, k as int) =~= orig.subrange(0, k as int));
        let p = parity_symbol(buf, row.as_slice(), k);
        proof {
            gf_dot_prefix(before, orig, row@, k as nat);
        }
        let ghost buf_before = buf@;
        buf[k + i] = p;
        proof {
            assert(buf@ == buf_before.update(k + i, p));
            assert forall|m: int| 0 <= m < N implies #[trigger] hexbit_values(buf@)[m] == (if m == k + i {
                p@
            } else {
                before[m]
            }) by {
                assert(hexbit_values(buf_before)[m] == buf_before[m]@);
            }
            assert(rows@.map_values(|r: Vec<u8>| r@)[i as int] == row@);
            assert forall|m: int| 0 <= m < k + i + 1 implies #[trigger] hexbit_values(buf@)[m] == systematic_word(
                orig,
                rows@.map_values(|r: Vec<u8>| r@),
                k as nat,
            )[m] by {
                if m == k + i {
                    assert(hexbit_values(buf@)[m] == p@);
                }
            }
        }
        i = i + 1;
    }
    assert(hexbit_values(buf@) =~= systematic_word(orig, rows@.map_values(|r: Vec<u8>| r@), k as nat));
}

/// The dot product only reads the first `n` symbols.
proof fn gf_dot_prefix(a: Seq<u8>, b: Seq<u8>, row: Seq<u8>, n: nat)
    requires
        a.len() >= n,
        b.len() >= n,
        a.subrange(0, n as int) == b.subrange(0, n as int),
    ensures
        gf_dot(a, row, n) == gf_dot(b, row, n),
    decreases n,
{
    if n > 0 {
        assert(a[n - 1] == a.subrange(0, n as int)[n - 1]);
        assert(b[n - 1] == b.subrange(0, n as int)[n - 1]);
        assert(a.subrange(0, n - 1) =~= a.subrange(0, n as int).subrange(0, n - 1));
        assert(b.subrange(0, n - 1) =~= b.subrange(0, n as int).subrange(0, n - 1));
        gf_dot_prefix(a, b, row, (n - 1) as nat);
    }
}

/// A dot product of 6-bit symbols is a 6-bit symbol.
proof fn lemma_dot_bound(data: Seq<u8>, row: Seq<u8>, n: nat)
    ensures
        gf_dot(data, row, n) < 64,
    decreases n,
{
    if n > 0 {
        lemma_dot_bound(data, row, (n - 1) as nat);
        let a = gf_dot(data, row, (n - 1) as nat);
        let b = gf_mul(data[n - 1], row[n - 1]);
        super::galois::lemma_mul_bound_any(data[n - 1], row[n - 1]);
        crate::p25::bitwise::lemma_xor_u8(a, b, 0);
    }
}

/// Decode a word of `P::spec_len()` hexbits using Reed-Solomon error
/// correction: the corrected codeword polynomial and error count, or
/// `None` if unrecoverable.
fn decode<P: PolynomialCoefs, const N: usize>(word: &[Hexbit; N]) -> (r: Option<(Polynomial<P>, usize)>)
    requires
        P::spec_len() == N,
    ensures
        match r {
            None => rs_decode_poly(
                word_poly(hexbit_values(word@)),
                2 * (P::spec_distance() / 2),
            ) is None,
            Some((poly, n)) => {
                &&& poly.wf()
                &&& poly.spec_start() == 0
                &&& rs_decode_poly(word_poly(hexbit_values(word@)), 2 * (P::spec_distance() / 2))
                    == Some((poly@, n as nat))
            },
        },
{
    let ghost t2 = 2 * (P::spec_distance() / 2);
    let ghost c = word_poly(hexbit_values(word@));
    // Build polynomial: first received symbol = highest degree coefficient.
    let mut rev: Vec<Codeword> = Vec::new();
    let mut i: usize = N;
    while i > 0
        invariant
            i <= N,
            rev@.len() == N - i,
            c == word_poly(hexbit_values(word@)),
            c.len() == N,
            forall|m: int| 0 <= m < N - i ==> #[trigger] rev@[m]@ == c[m],
        decreases i,
    {
        let h = word[i - 1];
        proof {
            assert(hexbit_values(word@)[i - 1] == h@);
            assert(c[N - i] == hexbit_values(word@)[i - 1]);
        }
        rev.push(Codeword::new(h.bits()));
        i = i - 1;
    }
    let mut poly = Polynomial::<P>::new(rev.as_slice());
    assert(poly@ =~= c) by {
        assert forall|m: int| 0 <= m < N implies poly@[m] == c[m] by {
            assert(rev@.map_values(|x: Codeword| x@)[m] == c[m]);
        }
    }
    let syn = syndromes(&poly);
    assert(syn@ == syndrome_coefs(c, t2, N as nat));
    let ghost loc = error_locator(syn@, N as nat, t2);
    let ghost roots = roots_from(loc, 0);
    match Errors::new(syn) {
        None => None,
        Some((nerr, errs)) => {
            let ghost corr = errs.remaining();
            proof {
                if highest_nonzero(loc) < 0 {
                    assert(corr =~= Seq::<(nat, u8)>::empty());
                }
                assert(rs_decode_poly(c, t2) == (if corrections_fit(corr, N as nat) {
                    Some((apply_corrections(c, corr), nerr as nat))
                } else {
                    None::<(Seq<u8>, nat)>
                }));
            }
            let mut errs = errs;
            let ghost mut done: Seq<(nat, u8)> = Seq::empty();
            loop
                invariant
                    poly.wf(),
                    poly.spec_start() == 0,
                    errs.wf(),
                    done + errs.remaining() == corr,
                    poly@ == apply_corrections(c, done),
                    corrections_fit(done, N as nat),
                    P::spec_len() == N,
                    c == word_poly(hexbit_values(word@)),
                    t2 == 2 * (P::spec_distance() / 2),
                    rs_decode_poly(c, t2) == (if corrections_fit(corr, N as nat) {
                        Some((apply_corrections(c, corr), nerr as nat))
                    } else {
                        None::<(Seq<u8>, nat)>
                    }),
                ensures
                    done == corr,
                    poly.wf(),
                    poly.spec_start() == 0,
                    poly@ == apply_corrections(c, done),
                    corrections_fit(done, N as nat),
                decreases errs.remaining().len(),
            {
                match errs.next() {
                    Some((loc_i, pat)) => {
                        let ghost old_poly = poly@;
                        proof {
                            poly.lemma_storage();
                        }
                        match poly.get_mut(loc_i) {
                            Some(coef) => {
                                *coef = *coef + pat;
                            },
                            None => {
                                // Error location outside the codeword = unrecoverable.
                                proof {
                                    let idx = done.len() as int;
                                    assert(corr[idx] == (loc_i as nat, pat@));
                                    assert(!corrections_fit(corr, N as nat));
                                }
                                return None;
                            },
                        }
                        proof {
                            poly.lemma_storage();
                            assert(poly@ =~= old_poly.update(loc_i as int, gf_add(old_poly[loc_i as int], pat@)));
                        }
                        proof {
                            let old_done = done;
                            done = done.push((loc_i as nat, pat@));
                            assert(done.drop_last() =~= old_done);
                            assert(done + errs.remaining() =~= corr);
                            lemma_codeword_bound(pat);
                        }
                    },
                    None => {
                        proof {
                            assert(done =~= corr);
                        }
                        break;
                    },
                }
            }
            Some((poly, nerr))
        },
    }
}

/// Compute the syndrome polynomial s(x) = s_1 + s_2*x + ... + s_{2t}*x^{2t-1}.
fn syndromes<P: PolynomialCoefs>(word: &Polynomial<P>) -> (r: Polynomial<P>)
    requires
        word.wf(),
        word.spec_start() == 0,
    ensures
        r.wf(),
        r.spec_start() == 0,
        r@ == syndrome_coefs(word@, 2 * (P::spec_distance() / 2), P::spec_len()),
{
    proof {
        P::lemma_params();
        word.lemma_view();
    }
    let n = P::syndromes();
    let mut vals: Vec<Codeword> = Vec::new();
    let mut p: usize = 1;
    while p <= n
        invariant
            n == 2 * (P::spec_distance() / 2),
            n < P::spec_len() <= 64,
            word.wf(),
            1 <= p <= n + 1,
            vals@.len() == p - 1,
            forall|m: int| 0 <= m < p - 1 ==> #[trigger] vals@[m]@ == poly_eval(
                word@,
                gf_exp((m + 1) as nat) as u8,
            ),
        decreases n + 1 - p,
    {
        let x = Codeword::for_power(p);
        proof {
            lemma_exp_bound(p as nat);
        }
        vals.push(word.eval(x));
        p = p + 1;
    }
    let r = Polynomial::new(vals.as_slice());
    assert(r@ =~= syndrome_coefs(word@, 2 * (P::spec_distance() / 2), P::spec_len()));
    r
}

/// Write the first `k` symbols of the corrected word (in word order) back
/// into `buf` and return them.
fn extract_data<P: PolynomialCoefs, const N: usize>(poly: Polynomial<P>, buf: &mut [Hexbit; N], k: usize) -> (r: Vec<Hexbit>)
    requires
        poly.wf(),
        poly@.len() == N,
        k <= N,
    ensures
        r@.len() == k,
        hexbit_values(r@) == word_poly(poly@).subrange(0, k as int),
        hexbit_values(final(buf)@) == word_poly(poly@).subrange(0, k as int) + hexbit_values(
            old(buf)@,
        ).subrange(k as int, N as int),
{
    proof {
        poly.lemma_view();
    }
    let mut out: Vec<Hexbit> = Vec::new();
    let mut j: usize = 0;
    while j < k
        invariant
            poly.wf(),
            poly@.len() == N,
            forall|m: int| 0 <= m < N ==> #[trigger] poly@[m] < 64,
            k <= N,
            j <= k,
            buf@.len() == N,
            out@.len() == j,
            forall|m: int| 0 <= m < j ==> #[trigger] out@[m]@ == word_poly(poly@)[m],
            forall|m: int| 0 <= m < j ==> #[trigger] buf@[m]@ == word_poly(poly@)[m],
            forall|m: int| j <= m < N ==> #[trigger] buf@[m] == old(buf)@[m],
        decreases k - j,
    {
        let coef = poly.coef(N - 1 - j);
        let h = Hexbit::new(coef.bits());
        proof {
            assert(coef@ == poly@[N - 1 - j]);
            assert(coef@ % 64 == coef@);
        }
        buf[j] = h;
        out.push(h);
        j = j + 1;
    }
    assert(hexbit_values(out@) =~= word_poly(poly@).subrange(0, k as int));
    assert(hexbit_values(buf@) =~= word_poly(poly@).subrange(0, k as int) + hexbit_values(
        old(buf)@,
    ).subrange(k as int, N as int));
    out
}

/// Decode `buf` with the code of `P`, keeping `k` data symbols: on
/// success the corrected data replaces the first `k` symbols of `buf`.
fn decode_data<P: PolynomialCoefs, const N: usize>(buf: &mut [Hexbit; N], k: usize) -> (r: Option<(Vec<Hexbit>, usize)>)
    requires
        P::spec_len() == N,
        k <= N,
    ensures
        r matches Some((d, _)) ==> d@.len() == k,
        match rs_decode_word(hexbit_values(old(buf)@), 2 * (P::spec_distance() / 2), k as nat) {
            None => r is None && final(buf)@ == old(buf)@,
            Some((data, n)) => r matches Some((d, m)) && hexbit_values(d@) == data && m == n
                && hexbit_values(final(buf)@) == data + hexbit_values(old(buf)@).subrange(k as int, N as int),
        },
{
    match decode::<P, N>(buf) {
        None => None,
        Some((poly, err)) => {
            proof {
                poly.lemma_view();
            }
            let data = extract_data(poly, buf, k);
            Some((data, err))
        },
    }
}

} // verus!

//! Berlekamp-Massey, Chien Search, and Forney algorithms for Reed-Solomon
//! error correction.
//!
//! This module implements the standard decoding pipeline for Reed-Solomon
//! codes over GF(2^6):
//!
//! 1. **Berlekamp-Massey** (`ErrorLocator`): builds the error locator
//!    polynomial from the syndrome polynomial.
//! 2. **Chien Search** (`PolynomialRoots`): finds roots of the error locator
//!    by brute-force evaluation over the field.
//! 3. **Forney** (`ErrorDescriptions`): computes error patterns from roots.
//! 4. **Errors**: top-level decoder tying the three together.

use super::galois::{
    coef_at, gf_add, gf_div, gf_exp, gf_inv, gf_log, gf_mul, highest_nonzero, lemma_add_laws,
    lemma_codeword_bound, lemma_div_mul, lemma_exp_bound, lemma_exp_mul, lemma_exp_table,
    lemma_log_exp, lemma_mul_associative, lemma_mul_identity, lemma_mul_inverse, poly_eval,
    poly_mul_coef, Codeword, Polynomial, PolynomialCoefs,
};
use core::marker::PhantomData;
use vstd::prelude::*;

verus! {

/// Number of non-zero elements in GF(2^6).
const FIELD_SIZE: usize = 63;

// ---------------------------------------------------------------------------
// Berlekamp-Massey, as a recurrence over coefficient sequences
// ---------------------------------------------------------------------------

/// Algorithm state: (p_saved, p_cur, q_saved, q_cur, deg_saved, deg_cur).
pub type BmState = (Seq<u8>, Seq<u8>, Seq<u8>, Seq<u8>, nat, nat);

/// Coefficient-wise sum of two polynomials, as `len` coefficients.
pub open spec fn seq_plus(a: Seq<u8>, b: Seq<u8>, len: nat) -> Seq<u8> {
    Seq::new(len, |i: int| gf_add(coef_at(a, i), coef_at(b, i)))
}

/// A polynomial with every coefficient multiplied by `m`.
pub open spec fn seq_scale(a: Seq<u8>, m: u8) -> Seq<u8> {
    Seq::new(a.len(), |i: int| gf_mul(a[i], m))
}

/// The monomial x^n as `len` coefficients.
pub open spec fn seq_unit(n: nat, len: nat) -> Seq<u8> {
    Seq::new(len, |i: int| if i == n { 1u8 } else { 0u8 })
}

/// Starting state for syndromes `syn` and 2t = `t2` iterations:
/// p_saved = x^(2t+1), p_cur = x^(2t), q_saved = 1 + x s(x), q_cur = s(x).
pub open spec fn bm_initial(syn: Seq<u8>, len: nat, t2: nat) -> BmState {
    (
        seq_unit(t2 + 1, len),
        seq_unit(t2, len),
        Seq::new(
            len,
            |i: int|
                if i == 0 {
                    1u8
                } else if i <= t2 {
                    coef_at(syn, i - 1)
                } else {
                    0u8
                },
        ),
        syn,
        0,
        1,
    )
}

/// One iteration (Hankerson et al.): divide by x when q_cur has no constant
/// term, otherwise cancel that term against the saved pair first.
pub open spec fn bm_step(s: BmState, len: nat) -> BmState {
    let (p_saved, p_cur, q_saved, q_cur, deg_saved, deg_cur) = s;
    if coef_at(q_cur, 0) == 0 {
        (p_saved, p_cur.drop_first(), q_saved, q_cur.drop_first(), deg_saved, deg_cur + 2)
    } else {
        let mult = gf_div(q_cur[0], q_saved[0]);
        let q = seq_plus(q_cur, seq_scale(q_saved, mult), len).drop_first();
        let p = seq_plus(p_cur, seq_scale(p_saved, mult), len).drop_first();
        let d = 2 + if deg_cur <= deg_saved {
            deg_cur
        } else {
            deg_saved
        };
        if deg_cur >= deg_saved {
            (p_cur, p, q_cur, q, deg_cur, d)
        } else {
            (p_saved, p, q_saved, q, deg_saved, d)
        }
    }
}

/// The state after `k` iterations.
pub open spec fn bm_steps(s: BmState, len: nat, k: nat) -> BmState
    decreases k,
{
    if k == 0 {
        s
    } else {
        bm_step(bm_steps(s, len, (k - 1) as nat), len)
    }
}

/// The error locator polynomial Lambda(x) for syndromes `syn`: p_cur after
/// 2t iterations.
pub open spec fn error_locator(syn: Seq<u8>, len: nat, t2: nat) -> Seq<u8> {
    bm_steps(bm_initial(syn, len, t2), len, t2).1
}

/// What holds of the state before iteration `k` of 2t = `t2`: the saved q
/// has a non-zero constant term, the current polynomials are long enough,
/// and both p polynomials vanish below degree 2t - k.
pub open spec fn bm_inv(s: BmState, len: nat, t2: nat, k: nat) -> bool {
    let (p_saved, p_cur, q_saved, q_cur, deg_saved, deg_cur) = s;
    &&& k <= t2
    &&& t2 + 2 <= len
    &&& q_saved.len() >= 1
    &&& q_saved[0] != 0
    &&& q_cur.len() + k >= len
    &&& p_cur.len() + k >= len
    &&& forall|i: int| 0 <= i < t2 - k ==> coef_at(p_cur, i) == 0 && coef_at(p_saved, i) == 0
    &&& deg_cur <= 2 * k + 1
    &&& deg_saved <= 2 * k + 1
}

/// One iteration keeps the invariant, provided the constant terms of the
/// q polynomials are field elements.
pub proof fn lemma_bm_step_inv(s: BmState, len: nat, t2: nat, k: nat)
    requires
        bm_inv(s, len, t2, k),
        k < t2,
        s.2[0] < 64,
        s.3.len() > 0 ==> s.3[0] < 64,
    ensures
        bm_inv(bm_step(s, len), len, t2, k + 1),
{
    let (p_saved, p_cur, q_saved, q_cur, deg_saved, deg_cur) = s;
    let n = bm_step(s, len);
    if coef_at(q_cur, 0) == 0 {
        assert forall|i: int| 0 <= i < t2 - (k + 1) implies coef_at(n.1, i) == 0 && coef_at(n.0, i) == 0 by {
            assert(coef_at(p_cur, i + 1) == 0);
        }
    } else {
        let mult = gf_div(q_cur[0], q_saved[0]);
        assert forall|i: int| 0 <= i < t2 - (k + 1) implies coef_at(n.1, i) == 0 && coef_at(n.0, i) == 0 by {
            assert(coef_at(p_cur, i + 1) == 0 && coef_at(p_saved, i + 1) == 0);
            assert(coef_at(p_cur, i) == 0);
            lemma_add_laws(0, 0, 0);
            assert(gf_mul(0, mult) == 0);
        }
    }
}

/// Builds the error locator polynomial from a syndrome polynomial using the
/// Berlekamp-Massey algorithm.
///
/// Uses the Hankerson et al. variant: the result is the connection polynomial
/// of the shortest LFSR that generates the syndrome sequence.
pub struct ErrorLocator<P: PolynomialCoefs> {
    /// Saved p polynomial from the last update step.
    p_saved: Polynomial<P>,
    /// Current p polynomial.
    p_cur: Polynomial<P>,
    /// Saved q polynomial from the last update step.
    q_saved: Polynomial<P>,
    /// Current q polynomial.
    q_cur: Polynomial<P>,
    /// Degree-related term of the saved polynomial.
    deg_saved: usize,
    /// Degree-related term of the current polynomial.
    deg_cur: usize,
}

impl<P: PolynomialCoefs> ErrorLocator<P> {
    /// The algorithm state as coefficient sequences.
    pub closed spec fn state(&self) -> BmState {
        (
            self.p_saved@,
            self.p_cur@,
            self.q_saved@,
            self.q_cur@,
            self.deg_saved as nat,
            self.deg_cur as nat,
        )
    }

    /// The state is well-formed before iteration `k`.
    pub closed spec fn inv(&self, k: nat) -> bool {
        &&& self.p_saved.wf()
        &&& self.p_cur.wf()
        &&& self.q_saved.wf()
        &&& self.q_cur.wf()
        &&& bm_inv(self.state(), P::spec_len(), 2 * (P::spec_distance() / 2), k)
    }

    /// Create a new error locator from the syndrome polynomial s(x).
    pub fn new(syn: Polynomial<P>) -> (r: Self)
        requires
            syn.wf(),
            syn.spec_start() == 0,
        ensures
            r.inv(0),
            r.state() == bm_initial(syn@, P::spec_len(), 2 * (P::spec_distance() / 2)),
    {
        proof {
            P::lemma_params();
            syn.lemma_view();
        }
        let t2 = P::syndromes();
        // q_saved = 1 + x s(x)
        let mut init: Vec<Codeword> = Vec::new();
        init.push(Codeword::for_power(0));
        let mut i: usize = 0;
        while i < t2
            invariant
                syn.wf(),
                t2 == 2 * (P::spec_distance() / 2),
                t2 + 2 <= P::spec_len(),
                i <= t2,
                init@.len() == i + 1,
                init@[0]@ == 1,
                forall|j: int| 1 <= j <= i ==> #[trigger] init@[j]@ == coef_at(syn@, j - 1),
            decreases t2 - i,
        {
            init.push(syn.coef(i));
            i = i + 1;
        }
        proof {
            lemma_exp_table();
        }
        let q_saved = Polynomial::new(&init);
        assert(q_saved@ =~= bm_initial(syn@, P::spec_len(), t2 as nat).2);
        let p_saved = Polynomial::unit_power(t2 + 1);
        let p_cur = Polynomial::unit_power(t2);
        let r = ErrorLocator { q_saved, q_cur: syn, p_saved, p_cur, deg_saved: 0, deg_cur: 1 };
        assert(r.state() =~= bm_initial(syn@, P::spec_len(), t2 as nat));
        r
    }

    /// Run the algorithm for 2t iterations and return the error locator.
    pub fn build(self) -> (r: Polynomial<P>)
        requires
            self.inv(0),
        ensures
            r.wf(),
            r@ == bm_steps(self.state(), P::spec_len(), 2 * (P::spec_distance() / 2)).1,
    {
        let t2 = P::syndromes();
        let mut s = self;
        let mut k: usize = 0;
        while k < t2
            invariant
                t2 == 2 * (P::spec_distance() / 2),
                k <= t2,
                s.inv(k as nat),
                s.state() == bm_steps(self.state(), P::spec_len(), k as nat),
            decreases t2 - k,
        {
            s.step(Ghost(k as nat));
            k = k + 1;
        }
        s.p_cur
    }

    /// One iteration of the algorithm.
    pub fn step(&mut self, Ghost(k): Ghost<nat>)
        requires
            old(self).inv(k),
            k < 2 * (P::spec_distance() / 2),
        ensures
            final(self).inv(k + 1),
            final(self).state() == bm_step(old(self).state(), P::spec_len()),
    {
        proof {
            self.q_cur.lemma_view();
            self.q_saved.lemma_view();
            let st = self.state();
            lemma_bm_step_inv(st, P::spec_len(), 2 * (P::spec_distance() / 2), k);
        }
        let (save, q, p, d) = if self.q_cur.constant().zero() {
            self.reduce(Ghost(k))
        } else {
            self.transform(Ghost(k))
        };

        if save {
            self.q_saved = self.q_cur.clone();
            self.p_saved = self.p_cur.clone();
            self.deg_saved = self.deg_cur;
        }
        self.q_cur = q;
        self.p_cur = p;
        self.deg_cur = d;
        assert(self.state() =~= bm_step(old(self).state(), P::spec_len()));
    }

    /// Shift step when the constant term is zero.
    fn reduce(&self, Ghost(k): Ghost<nat>) -> (r: (bool, Polynomial<P>, Polynomial<P>, usize))
        requires
            self.inv(k),
            k < 2 * (P::spec_distance() / 2),
            coef_at(self.q_cur@, 0) == 0,
        ensures
            !r.0,
            r.1.wf(),
            r.2.wf(),
            r.1@ == self.q_cur@.drop_first(),
            r.2@ == self.p_cur@.drop_first(),
            r.3 == self.deg_cur + 2,
    {
        proof {
            P::lemma_params();
            self.q_cur.lemma_view();
            self.p_cur.lemma_view();
            let st = self.state();
            assert(bm_inv(st, P::spec_len(), 2 * (P::spec_distance() / 2), k));
            assert(st.1 == self.p_cur@);
            assert(0 < 2 * (P::spec_distance() / 2) - k);
            assert(coef_at(st.1, 0) == 0);
        }
        (false, self.q_cur.clone().shift(), self.p_cur.clone().shift(), 2 + self.deg_cur)
    }

    /// Normalize and shift step when the constant term is non-zero.
    fn transform(&self, Ghost(k): Ghost<nat>) -> (r: (bool, Polynomial<P>, Polynomial<P>, usize))
        requires
            self.inv(k),
            k < 2 * (P::spec_distance() / 2),
            coef_at(self.q_cur@, 0) != 0,
        ensures
            ({
                let mult = gf_div(self.q_cur@[0], self.q_saved@[0]);
                &&& r.0 == (self.deg_cur >= self.deg_saved)
                &&& r.1.wf()
                &&& r.2.wf()
                &&& r.1@ == seq_plus(self.q_cur@, seq_scale(self.q_saved@, mult), P::spec_len()).drop_first()
                &&& r.2@ == seq_plus(self.p_cur@, seq_scale(self.p_saved@, mult), P::spec_len()).drop_first()
                &&& r.3 == 2 + if self.deg_cur <= self.deg_saved {
                    self.deg_cur
                } else {
                    self.deg_saved
                }
            }),
    {
        proof {
            P::lemma_params();
            self.q_cur.lemma_view();
            self.q_saved.lemma_view();
            self.p_cur.lemma_view();
            self.p_saved.lemma_view();
        }
        let mult = self.q_cur.constant() / self.q_saved.constant();
        let ghost qc0 = self.q_cur@[0];
        let ghost qs0 = self.q_saved@[0];
        proof {
            lemma_div_mul(qc0, qs0);
            lemma_mul_identity(qs0, mult@);
            assert(gf_mul(qs0, mult@) == gf_mul(mult@, qs0));
            lemma_add_laws(qc0, qc0, 0);
            lemma_mul_identity(0, mult@);
            assert(gf_mul(0, mult@) == 0);
        }
        let q = self.q_cur.clone().plus(self.q_saved.clone().scale(mult));
        assert(q@[0] == 0);
        let p = self.p_cur.clone().plus(self.p_saved.clone().scale(mult));
        proof {
            let st = self.state();
            assert(bm_inv(st, P::spec_len(), 2 * (P::spec_distance() / 2), k));
            assert(st.1 == self.p_cur@ && st.0 == self.p_saved@);
            assert(0 < 2 * (P::spec_distance() / 2) - k);
            assert(coef_at(st.1, 0) == 0 && coef_at(st.0, 0) == 0);
        }
        assert(coef_at(self.p_cur@, 0) == 0 && coef_at(self.p_saved@, 0) == 0);
        assert(p@[0] == 0) by {
            lemma_add_laws(0, 0, 0);
        }
        let d = 2 + if self.deg_cur <= self.deg_saved {
            self.deg_cur
        } else {
            self.deg_saved
        };
        (self.deg_cur >= self.deg_saved, q.shift(), p.shift(), d)
    }
}

// ---------------------------------------------------------------------------
// Chien Search: find roots of the error locator polynomial
// ---------------------------------------------------------------------------

/// Sum (XOR) of all elements of `s`.
pub open spec fn xor_sum(s: Seq<u8>) -> u8
    decreases s.len(),
{
    if s.len() == 0 {
        0
    } else {
        gf_add(xor_sum(s.drop_last()), s.last())
    }
}

/// The polynomial with coefficients `s` evaluated at alpha^pow, written as
/// the sum of its terms s_i * alpha^(i * pow).
pub open spec fn eval_at_power(s: Seq<u8>, pow: nat) -> u8 {
    xor_sum(Seq::new(s.len(), |i: int| gf_mul(s[i], gf_exp((i * pow) as nat) as u8)))
}

/// The powers p in pow..63, ascending, at which alpha^p is a root of `s`.
pub open spec fn roots_from(s: Seq<u8>, pow: nat) -> Seq<nat>
    decreases 63 - pow,
{
    if pow >= 63 {
        Seq::empty()
    } else if eval_at_power(s, pow) == 0 {
        seq![pow] + roots_from(s, pow + 1)
    } else {
        roots_from(s, pow + 1)
    }
}

/// Finds roots of a polynomial over GF(2^6) by evaluating at each field
/// element using the Chien Search optimization.
///
/// Rather than re-evaluating the full polynomial each time, each coefficient
/// is multiplied by its corresponding power of alpha to advance to the next
/// evaluation point.
pub struct PolynomialRoots<P: PolynomialCoefs> {
    /// Working copy of the locator coefficients, updated each step.
    loc: Polynomial<P>,
    /// Next power to evaluate (powers run up to 63).
    pow: usize,
    /// The coefficients of the polynomial being searched.
    orig: Ghost<Seq<u8>>,
}

impl<P: PolynomialCoefs> PolynomialRoots<P> {
    /// The polynomial whose roots are searched for.
    pub closed spec fn original(&self) -> Seq<u8> {
        self.orig@
    }

    /// The next power of alpha to evaluate.
    pub closed spec fn position(&self) -> nat {
        self.pow as nat
    }

    /// The working coefficients are the original ones advanced to `pow`.
    pub closed spec fn wf(&self) -> bool {
        &&& self.loc.wf()
        &&& self.pow <= FIELD_SIZE
        &&& self.loc@ == Seq::new(
            self.orig@.len(),
            |i: int| gf_mul(self.orig@[i], gf_exp((i * self.pow) as nat) as u8),
        )
        &&& forall|i: int| 0 <= i < self.orig@.len() ==> #[trigger] self.orig@[i] < 64
    }

    /// Create a new root finder for the given polynomial.
    pub fn new(loc: Polynomial<P>) -> (r: Self)
        requires
            loc.wf(),
        ensures
            r.wf(),
            r.original() == loc@,
            r.position() == 0,
    {
        proof {
            loc.lemma_view();
            lemma_exp_table();
            assert forall|i: int| 0 <= i < loc@.len() implies gf_mul(
                loc@[i],
                gf_exp((i * 0) as nat) as u8,
            ) == loc@[i] by {
                assert(i * 0 == 0);
                lemma_mul_identity(loc@[i], 1);
            }
        }
        let ghost orig = loc@;
        let r = Self { loc, pow: 0, orig: Ghost(orig) };
        assert(r.loc@ =~= Seq::new(orig.len(), |i: int| gf_mul(orig[i], gf_exp((i * 0) as nat) as u8)));
        r
    }

    /// Advance each term's coefficient to the next evaluation point.
    pub fn update_terms(&mut self)
        requires
            old(self).wf(),
            old(self).position() < 63,
        ensures
            final(self).wf(),
            final(self).original() == old(self).original(),
            final(self).position() == old(self).position() + 1,
    {
        let n = self.loc.len();
        let ghost pw = self.pow as nat;
        let ghost orig = self.orig@;
        let mut i: usize = 0;
        while i < n
            invariant
                self.loc.wf(),
                self.orig@ == orig,
                self.pow == pw,
                pw < 63,
                n == orig.len(),
                i <= n,
                self.loc@.len() == n,
                forall|j: int| 0 <= j < n ==> #[trigger] orig[j] < 64,
                forall|j: int|
                    0 <= j < n ==> #[trigger] self.loc@[j] == if j < i {
                        gf_mul(orig[j], gf_exp((j * (pw + 1)) as nat) as u8)
                    } else {
                        gf_mul(orig[j], gf_exp((j * pw) as nat) as u8)
                    },
            decreases n - i,
        {
            let term = self.loc.coef(i);
            let alpha_i = Codeword::for_power(i);
            proof {
                let a = orig[i as int];
                let e1 = gf_exp((i * pw) as nat);
                let e2 = gf_exp(i as nat);
                lemma_exp_bound((i * pw) as nat);
                lemma_exp_bound(i as nat);
                lemma_mul_associative(a, e1 as u8, e2 as u8);
                lemma_exp_mul((i * pw) as nat, i as nat);
                assert((i * pw) as nat + i as nat == (i * (pw + 1)) as nat) by (nonlinear_arith);
            }
            self.loc.set(i, term * alpha_i);
            i = i + 1;
        }
        self.pow = self.pow + 1;
        assert(self.loc@ =~= Seq::new(
            orig.len(),
            |j: int| gf_mul(orig[j], gf_exp((j * self.pow) as nat) as u8),
        ));
    }

    /// Sum all current coefficients to evaluate the polynomial.
    pub fn eval(&self) -> (r: Codeword)
        requires
            self.wf(),
        ensures
            r@ == eval_at_power(self.original(), self.position()),
    {
        let n = self.loc.len();
        let mut sum = Codeword::default();
        let mut i: usize = 0;
        while i < n
            invariant
                self.wf(),
                n == self.loc@.len(),
                i <= n,
                sum@ == xor_sum(self.loc@.subrange(0, i as int)),
            decreases n - i,
        {
            assert(self.loc@.subrange(0, i + 1).drop_last() =~= self.loc@.subrange(0, i as int));
            sum = sum + self.loc.coef(i);
            i = i + 1;
        }
        assert(self.loc@.subrange(0, n as int) =~= self.loc@);
        sum
    }

    /// The next root alpha^p, for the smallest power p at or after the
    /// current position; `None` once every power up to 62 has been tried.
    pub fn next(&mut self) -> (r: Option<Codeword>)
        requires
            old(self).wf(),
        ensures
            final(self).wf(),
            final(self).original() == old(self).original(),
            final(self).position() <= 63,
            r is Some ==> final(self).position() > old(self).position(),
            match r {
                None => roots_from(old(self).original(), old(self).position()).len() == 0
                    && final(self).position() == 63,
                Some(root) => {
                    let rs = roots_from(old(self).original(), old(self).position());
                    &&& rs.len() > 0
                    &&& root@ == gf_exp(rs[0])
                    &&& roots_from(final(self).original(), final(self).position()) == rs.drop_first()
                },
            },
    {
        let ghost orig = self.orig@;
        let ghost start = roots_from(orig, self.pow as nat);
        assert(orig == old(self).original());
        assert(start == roots_from(old(self).original(), old(self).position()));
        while self.pow < FIELD_SIZE
            invariant
                self.wf(),
                self.pow >= old(self).position(),
                self.orig@ == orig,
                orig == old(self).original(),
                start == roots_from(old(self).original(), old(self).position()),
                roots_from(orig, self.pow as nat) == start,
            decreases FIELD_SIZE - self.pow,
        {
            let e = self.eval();
            let p = self.pow;
            self.update_terms();
            if e.zero() {
                assert(start =~= seq![p as nat] + roots_from(orig, p as nat + 1));
                assert(start.drop_first() =~= roots_from(orig, p as nat + 1));
                return Some(Codeword::for_power(p));
            }
        }
        None
    }
}

// ---------------------------------------------------------------------------
// Forney algorithm: roots -> error locations and patterns
// ---------------------------------------------------------------------------

/// The error location for a root of the locator: k with root = alpha^(-k).
pub open spec fn forney_location(root: u8) -> nat {
    gf_log(gf_inv(root) as nat)
}

/// The error pattern Omega(root) / Lambda'(root).
pub open spec fn forney_pattern(vals: Seq<u8>, deriv: Seq<u8>, root: u8) -> u8 {
    gf_div(poly_eval(vals, root), poly_eval(deriv, root))
}

/// Computes error locations and patterns from the roots of the error locator
/// polynomial using the Forney algorithm.
///
/// For each root alpha^(-k) of the locator, the error location is k and the
/// error pattern is Omega(root) / Lambda'(root).
pub struct ErrorDescriptions<P: PolynomialCoefs> {
    /// Derivative of error locator polynomial.
    deriv: Polynomial<P>,
    /// Error evaluator polynomial: Lambda(x) * s(x) mod x^{2t}.
    vals: Polynomial<P>,
}

/// Coefficients of Lambda'(x) for locator coefficients `loc`.
pub open spec fn deriv_coefs(loc: Seq<u8>) -> Seq<u8> {
    Seq::new(loc.len(), |i: int| if i % 2 == 0 { coef_at(loc, i + 1) } else { 0u8 })
}

/// Coefficients of Omega(x) = Lambda(x) s(x) mod x^(2t), as `len` values.
pub open spec fn evaluator_coefs(syn: Seq<u8>, loc: Seq<u8>, len: nat, t2: nat) -> Seq<u8> {
    Seq::new(len, |k: int| if k <= t2 - 1 { poly_mul_coef(loc, syn, k) } else { 0u8 })
}

impl<P: PolynomialCoefs> ErrorDescriptions<P> {
    /// The derivative polynomial's coefficients.
    pub closed spec fn spec_deriv(&self) -> Seq<u8> {
        self.deriv@
    }

    /// The evaluator polynomial's coefficients.
    pub closed spec fn spec_vals(&self) -> Seq<u8> {
        self.vals@
    }

    /// Both polynomials are well-formed.
    pub closed spec fn wf(&self) -> bool {
        self.deriv.wf() && self.vals.wf()
    }

    /// Create from the syndrome polynomial and error locator polynomial.
    pub fn new(syn: Polynomial<P>, loc: Polynomial<P>) -> (r: Self)
        requires
            syn.wf(),
            loc.wf(),
        ensures
            r.wf(),
            r.spec_deriv() == deriv_coefs(loc@),
            r.spec_vals() == evaluator_coefs(syn@, loc@, P::spec_len(), 2 * (P::spec_distance() / 2)),
    {
        proof {
            P::lemma_params();
        }
        let t2 = P::syndromes();
        let deriv = loc.clone().deriv();
        let vals = loc.times(syn).truncate(t2 - 1);
        let r = Self { deriv, vals };
        assert(r.spec_deriv() =~= deriv_coefs(loc@));
        assert(r.spec_vals() =~= evaluator_coefs(syn@, loc@, P::spec_len(), t2 as nat));
        r
    }

    /// Compute the error location and pattern for a root of the locator.
    pub fn for_root(&self, root: Codeword) -> (r: (usize, Codeword))
        requires
            self.wf(),
            root@ != 0,
            poly_eval(self.spec_deriv(), root@) != 0,
        ensures
            r.0 == forney_location(root@),
            r.1@ == forney_pattern(self.spec_vals(), self.spec_deriv(), root@),
    {
        proof {
            lemma_codeword_bound(root);
            lemma_mul_inverse(root@);
        }
        let inv = root.invert();
        let location = match inv.power() {
            Some(p) => p,
            None => 0,
        };
        (location, self.vals.eval(root) / self.deriv.eval(root))
    }
}

// ---------------------------------------------------------------------------
// Top-level decoder
// ---------------------------------------------------------------------------

/// The corrections for `roots` (powers): location and pattern of each.
pub open spec fn corrections_for(vals: Seq<u8>, deriv: Seq<u8>, roots: Seq<nat>) -> Seq<(nat, u8)> {
    Seq::new(
        roots.len(),
        |i: int|
            (
                forney_location(gf_exp(roots[i]) as u8),
                forney_pattern(vals, deriv, gf_exp(roots[i]) as u8),
            ),
    )
}

/// Whether Lambda' is non-zero at every root alpha^p for p in `roots`.
pub open spec fn simple_roots(loc: Seq<u8>, roots: Seq<nat>) -> bool {
    forall|i: int| 0 <= i < roots.len() ==> poly_eval(deriv_coefs(loc), gf_exp(#[trigger] roots[i]) as u8) != 0
}

/// Decodes Reed-Solomon errors from a syndrome polynomial.
///
/// Yields the error count and then, one at a time, (location, pattern)
/// pairs. Construction fails if the codeword is unrecoverable.
pub struct Errors<P: PolynomialCoefs> {
    /// Roots of the error locator polynomial, in the order found.
    roots: Vec<Codeword>,
    /// Forney evaluator for computing locations and patterns.
    descs: ErrorDescriptions<P>,
    /// Current position in the root buffer.
    pos: usize,
    /// Number of roots to report.
    count: usize,
    /// Powers of the roots.
    powers: Ghost<Seq<nat>>,
}

impl<P: PolynomialCoefs> Errors<P> {
    /// The corrections not yet reported, in order.
    pub closed spec fn remaining(&self) -> Seq<(nat, u8)> {
        corrections_for(self.descs.spec_vals(), self.descs.spec_deriv(), self.powers@).subrange(
            self.pos as int,
            self.count as int,
        )
    }

    /// Internal consistency of the buffered roots.
    pub closed spec fn wf(&self) -> bool {
        &&& self.descs.wf()
        &&& self.pos <= self.count
        &&& self.count == self.roots@.len()
        &&& self.powers@.len() == self.count
        &&& forall|i: int| 0 <= i < self.count ==> #[trigger] self.roots@[i]@ == gf_exp(self.powers@[i])
        &&& forall|i: int| 0 <= i < self.count ==> poly_eval(self.descs.spec_deriv(), #[trigger] gf_exp(self.powers@[i]) as u8) != 0
    }

    /// Decode errors from the syndrome polynomial s(x).
    ///
    /// Returns `Some((error_count, errors))` on success, or `None` if the
    /// number of roots does not match the degree of the error locator
    /// (unrecoverable error). A root at which Lambda' vanishes (which
    /// cannot occur once the root count matches the degree) is likewise
    /// reported as unrecoverable rather than dividing by zero.
    pub fn new(syn: Polynomial<P>) -> (r: Option<(usize, Self)>)
        requires
            syn.wf(),
            syn.spec_start() == 0,
        ensures
            ({
                let t2 = 2 * (P::spec_distance() / 2);
                let loc = error_locator(syn@, P::spec_len(), t2);
                let roots = roots_from(loc, 0);
                let vals = evaluator_coefs(syn@, loc, P::spec_len(), t2);
                match r {
                    None => highest_nonzero(loc) >= 0 && (roots.len() != highest_nonzero(loc)
                        || !simple_roots(loc, roots)),
                    Some((n, e)) => {
                        &&& e.wf()
                        &&& highest_nonzero(loc) < 0 ==> n == 0 && e.remaining().len() == 0
                        &&& highest_nonzero(loc) >= 0 ==> {
                            &&& n == highest_nonzero(loc)
                            &&& roots.len() == n
                            &&& simple_roots(loc, roots)
                            &&& e.remaining() == corrections_for(vals, deriv_coefs(loc), roots)
                        }
                    },
                }
            }),
    {
        let ghost t2 = 2 * (P::spec_distance() / 2);
        let syn_copy = syn.clone();
        let syn_copy2 = syn.clone();
        let locator = ErrorLocator::new(syn);
        let ghost init = locator.state();
        let loc = locator.build();
        assert(loc@ == error_locator(syn_copy@, P::spec_len(), t2));

        let errors = match loc.degree() {
            Some(e) => e,
            None => {
                let descs = ErrorDescriptions::new(syn_copy, loc);
                let empty = Self {
                    roots: Vec::new(),
                    descs,
                    pos: 0,
                    count: 0,
                    powers: Ghost(Seq::empty()),
                };
                assert(empty.remaining() =~= Seq::empty());
                return Some((0, empty));
            },
        };

        // Buffer roots and check that Lambda' is usable at each.
        let descs = ErrorDescriptions::new(syn_copy2, loc.clone());
        let ghost all_roots = roots_from(loc@, 0);
        let mut finder = PolynomialRoots::new(loc);
        let mut roots: Vec<Codeword> = Vec::new();
        let mut nroots: usize = 0;
        let mut simple = true;
        let ghost mut found: Seq<nat> = Seq::empty();
        proof {
            lemma_roots_from_len(loc@, 0);
            assert(found + roots_from(loc@, 0) =~= all_roots);
        }
        loop
            invariant
                all_roots.len() <= 63,
                finder.wf(),
                finder.original() == loc@,
                descs.wf(),
                descs.spec_deriv() == deriv_coefs(loc@),
                found + roots_from(loc@, finder.position()) == all_roots,
                nroots == found.len(),
                nroots <= 63,
                roots@.len() == nroots,
                forall|i: int| 0 <= i < nroots ==> #[trigger] roots@[i]@ == gf_exp(found[i]),
                simple == (forall|i: int| 0 <= i < nroots ==> poly_eval(deriv_coefs(loc@), #[trigger] gf_exp(found[i]) as u8) != 0),
                roots_from(loc@, finder.position()).len() + finder.position() <= 63,
            ensures
                found == all_roots,
                nroots == found.len(),
                roots@.len() == nroots,
                forall|i: int| 0 <= i < nroots ==> #[trigger] roots@[i]@ == gf_exp(found[i]),
                simple == simple_roots(loc@, found),
            decreases 63 - finder.position(),
        {
            let ghost before = roots_from(loc@, finder.position());
            let ghost before_pos = finder.position();
            proof {
                lemma_roots_from_len(loc@, finder.position());
            }
            match finder.next() {
                Some(root) => {
                    proof {
                        lemma_roots_from_len(loc@, finder.position());
                        lemma_roots_from_bound(loc@, before_pos);
                        assert(before[0] < 63);
                    }
                    proof {
                        lemma_exp_bound(before[0]);
                    }
                    let d = descs.deriv.eval(root);
                    let ghost old_simple = simple;
                    let ghost old_found = found;
                    if d.zero() {
                        simple = false;
                    }
                    roots.push(root);
                    nroots = nroots + 1;
                    proof {
                        assert(before =~= seq![before[0]] + before.drop_first());
                        found = found.push(before[0]);
                        assert(d@ == poly_eval(deriv_coefs(loc@), gf_exp(found[nroots - 1]) as u8));
                        assert forall|i: int| 0 <= i < nroots - 1 implies found[i] == old_found[i] by {}
                        if simple {
                            assert forall|i: int| 0 <= i < nroots implies poly_eval(deriv_coefs(loc@), #[trigger] gf_exp(found[i]) as u8) != 0 by {
                                if i < nroots - 1 {
                                    assert(found[i] == old_found[i]);
                                }
                            }
                        } else if !old_simple {
                            let w = choose|i: int| 0 <= i < nroots - 1 && !(poly_eval(deriv_coefs(loc@), #[trigger] gf_exp(old_found[i]) as u8) != 0);
                            assert(found[w] == old_found[w]);
                        }
                        assert(found + roots_from(loc@, finder.position()) =~= all_roots);
                    }
                },
                None => {
                    proof {
                        assert(found =~= all_roots);
                    }
                    break;
                },
            }
        }

        // Root count must match deg(Lambda) for valid decoding.
        if nroots != errors || !simple {
            return None;
        }

        let r = Self { roots, descs, pos: 0, count: nroots, powers: Ghost(found) };
        assert(r.remaining() =~= corrections_for(
            evaluator_coefs(syn_copy2@, loc@, P::spec_len(), t2),
            deriv_coefs(loc@),
            all_roots,
        ));
        Some((errors, r))
    }

    /// The next (location, pattern) correction, if any remain.
    pub fn next(&mut self) -> (r: Option<(usize, Codeword)>)
        requires
            old(self).wf(),
        ensures
            final(self).wf(),
            match r {
                None => old(self).remaining().len() == 0 && final(self).remaining().len() == 0,
                Some(c) => old(self).remaining().len() > 0 && (c.0 as nat, c.1@) == old(self).remaining()[0]
                    && final(self).remaining() == old(self).remaining().drop_first(),
            },
    {
        if self.pos < self.count {
            let root = self.roots[self.pos];
            proof {
                lemma_exp_bound(self.powers@[self.pos as int]);
            }
            let c = self.descs.for_root(root);
            self.pos = self.pos + 1;
            assert(self.remaining() =~= old(self).remaining().drop_first());
            Some(c)
        } else {
            None
        }
    }
}

/// There are at most 63 - pow roots at or after `pow`.
pub proof fn lemma_roots_from_len(s: Seq<u8>, pow: nat)
    ensures
        pow <= 63 ==> roots_from(s, pow).len() + pow <= 63,
    decreases 63 - pow,
{
    if pow < 63 {
        lemma_roots_from_len(s, pow + 1);
    }
}

/// Every root power found at or after `pow` lies in pow..63.
pub proof fn lemma_roots_from_bound(s: Seq<u8>, pow: nat)
    ensures
        forall|i: int| 0 <= i < roots_from(s, pow).len() ==> pow <= #[trigger] roots_from(s, pow)[i] < 63,
    decreases 63 - pow,
{
    if pow < 63 {
        lemma_roots_from_bound(s, pow + 1);
        let rest = roots_from(s, pow + 1);
        if eval_at_power(s, pow) == 0 {
            assert forall|i: int| 0 <= i < roots_from(s, pow).len() implies pow <= #[trigger] roots_from(s, pow)[i] < 63 by {
                if i > 0 {
                    assert(roots_from(s, pow)[i] == rest[i - 1]);
                }
            }
        }
    }
}

} // verus!

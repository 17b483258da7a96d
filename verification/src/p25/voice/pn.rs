//! Pseudo-random (PN) sequence generator for voice frame descrambling.
//!
//! The P25 IMBE voice codec scrambles voice data using a linear congruential
//! generator (LCG): `state = 173 * state + 13849 (mod 65536)`. The random
//! bit at each step is the MSB (bit 15) of the state.
//!
//! The 12-bit seed comes from the u_0 chunk of the first voice frame in
//! each superframe. Methods `next_23()` and `next_15()` produce scrambling
//! masks for Golay-protected and Hamming-protected chunks respectively.

use vstd::prelude::*;

verus! {

/// One step of the generator: 173 * state + 13849 modulo 2^16.
pub open spec fn lcg_step(state: u16) -> u16 {
    ((173 * state + 13849) % 0x1_0000) as u16
}

/// The state after `n` steps from `state`.
pub open spec fn lcg_after(state: u16, n: nat) -> u16
    decreases n,
{
    if n == 0 {
        state
    } else {
        lcg_step(lcg_after(state, (n - 1) as nat))
    }
}

/// The word formed by the MSBs of the next `n` states after `state`, the
/// first generated bit most significant.
pub open spec fn pn_word(state: u16, n: nat) -> nat
    decreases n,
{
    if n == 0 {
        0
    } else {
        pn_word(state, (n - 1) as nat) * 2 + lcg_after(state, n) as nat / 0x8000
    }
}

/// P25 PN sequence generator for voice frame scrambling/descrambling.
///
/// Generates scrambling words by extracting the MSB of a 16-bit LCG state
/// at each step.
pub struct PseudoRandom {
    /// Current LCG state (p_n in the standard).
    state: u16,
}

impl View for PseudoRandom {
    type V = u16;

    /// The current LCG state.
    closed spec fn view(&self) -> u16 {
        self.state
    }
}

/// A word of `n` generated bits is below 2^n.
proof fn lemma_pn_word_bound(state: u16, n: nat)
    ensures
        pn_word(state, n) < vstd::arithmetic::power2::pow2(n),
    decreases n,
{
    vstd::arithmetic::power2::lemma2_to64();
    if n > 0 {
        lemma_pn_word_bound(state, (n - 1) as nat);
        vstd::arithmetic::power2::lemma_pow2_unfold(n);
    }
}

impl PseudoRandom {
    /// Create a new generator with the given 12-bit seed.
    ///
    /// The seed is typically extracted from the u_0 chunk of the first IMBE
    /// voice frame. It occupies bits 15..4 of the initial state.
    pub fn new(seed: u16) -> (r: Self)
        requires
            seed < 0x1000,
        ensures
            r@ == seed * 16,
    {
        proof {
            crate::p25::bitwise::lemma_mask_u16(seed);
        }
        Self { state: seed << 4 }
    }

    /// The current LCG state.
    pub fn state(&self) -> (r: u16)
        ensures
            r == self@,
    {
        self.state
    }

    /// Generate the next 23-bit scrambling word for Golay-protected chunks.
    ///
    /// The MSB of the returned value corresponds to the first generated bit.
    pub fn next_23(&mut self) -> (r: u32)
        ensures
            r == pn_word(old(self)@, 23),
            r < 0x80_0000,
            final(self)@ == lcg_after(old(self)@, 23),
    {
        proof {
            vstd::arithmetic::power2::lemma2_to64();
        }
        self.next_bits(23)
    }

    /// Generate the next 15-bit scrambling word for Hamming-protected chunks.
    ///
    /// The MSB of the returned value corresponds to the first generated bit.
    pub fn next_15(&mut self) -> (r: u32)
        ensures
            r == pn_word(old(self)@, 15),
            r < 0x8000,
            final(self)@ == lcg_after(old(self)@, 15),
    {
        proof {
            vstd::arithmetic::power2::lemma2_to64();
        }
        self.next_bits(15)
    }

    /// Generate a scrambling word of the given bit width.
    fn next_bits(&mut self, count: usize) -> (r: u32)
        requires
            count <= 31,
        ensures
            r == pn_word(old(self)@, count as nat),
            r < vstd::arithmetic::power2::pow2(count as nat),
            final(self)@ == lcg_after(old(self)@, count as nat),
    {
        let ghost start = self@;
        let mut word: u32 = 0;
        let mut i: usize = 0;
        while i < count
            invariant
                i <= count <= 31,
                word == pn_word(start, i as nat),
                self@ == lcg_after(start, i as nat),
            decreases count - i,
        {
            proof {
                lemma_pn_word_bound(start, i as nat);
                vstd::arithmetic::power2::lemma2_to64();
                if i < 31 {
                    vstd::arithmetic::power2::lemma_pow2_strictly_increases(i as nat, 31);
                }
            }
            let bit = self.advance();
            word = word * 2 + bit as u32;
            i += 1;
        }
        proof {
            lemma_pn_word_bound(start, count as nat);
        }
        word
    }

    /// Step the LCG and return the next random bit (MSB of new state).
    pub fn advance(&mut self) -> (r: u16)
        ensures
            final(self)@ == lcg_step(old(self)@),
            r == final(self)@ / 0x8000,
            r < 2,
    {
        let next = (self.state as u32 * 173 + 13849) % 0x1_0000;
        self.state = next as u16;
        self.state / 0x8000
    }
}

} // verus!

//! Hamming error-correcting codes for P25 voice frame decoding.
//!
//! Implements two variants:
//! - **Standard (15, 11, 3)**: Corrects up to 1 bit error. Used for IMBE
//!   voice frame chunks u_4 through u_6.
//! - **Shortened (10, 6, 3)**: Corrects up to 1 bit error. Used for voice
//!   extra packet hexbit words before Reed-Solomon decoding.
//!
//! Both codes use parity-check matrix syndrome decoding: compute s = word *
//! H^T, then look up the error location from a syndrome table.
//!
//! These algorithms are sourced from *Coding Theory and Cryptography: The
//! Essentials*, Hankerson, Hoffman, et al, 2000.

use vstd::prelude::*;
use super::golay::{gf2_matrix_multiply, gf2_product, lemma_gf2_product_bound};

pub mod shortened;
pub mod standard;

verus! {

/// Compute the GF(2) dot product of a binary vector with each row of a
/// parity-check matrix, producing a syndrome value.
fn syndrome(word: u32, parity_check: &[u32]) -> (r: usize)
    requires
        parity_check@.len() == 4,
    ensures
        r == gf2_product(word, parity_check@),
        r < 16,
{
    let s = gf2_matrix_multiply(word, parity_check);
    proof {
        lemma_gf2_product_bound(word, parity_check@);
        crate::p25::bitwise::lemma_pow2_shifts();
    }
    s as usize
}

} // verus!

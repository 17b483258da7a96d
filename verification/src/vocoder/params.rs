//! Base IMBE frame parameters derived from the pitch index.
//!
//! The fundamental frequency is w0 = 4π / (b0 + 39.5) for the pitch index
//! b0; the number of harmonics is L = ⌊0.9254 ⌊π / w0 + 0.25⌋⌋ and the
//! number of voiced/unvoiced bands is K = ⌊(L + 2) / 3⌋ for L ≤ 36 and 12
//! otherwise. Since π / w0 + 0.25 = (2 b0 + 81) / 8, both counts are
//! computed here in integers.

use vstd::prelude::*;

verus! {

/// The number of harmonics L for pitch index `period`.
pub open spec fn harmonic_count_of(period: u8) -> nat {
    (9254 * ((2 * period + 81) / 8) / 10000) as nat
}

/// The number of voiced/unvoiced bands K for `l` harmonics.
pub open spec fn band_count_of(l: nat) -> nat {
    if l <= 36 {
        (l + 2) / 3
    } else {
        12
    }
}

/// Integer parameters of an IMBE frame that follow from its pitch index.
#[derive(Debug, Clone, Copy)]
pub struct BaseParams {
    /// Number of harmonics L.
    pub harmonic_count: u32,
    /// Number of voiced/unvoiced bands K.
    pub band_count: u32,
}

impl BaseParams {
    /// Derive the parameters of pitch index `period`.
    pub fn new(period: u8) -> (r: Self)
        ensures
            r.harmonic_count == harmonic_count_of(period),
            r.band_count == band_count_of(harmonic_count_of(period)),
            r.band_count <= 12,
    {
        let f = (2 * period as u32 + 81) / 8;
        let harmonic_count = 9254 * f / 10000;
        let band_count = if harmonic_count <= 36 {
            (harmonic_count + 2) / 3
        } else {
            12
        };
        Self { harmonic_count, band_count }
    }
}

impl Default for BaseParams {
    /// Parameters of no harmonics and no bands.
    fn default() -> (r: Self)
        ensures
            r.harmonic_count == 0,
            r.band_count == 0,
    {
        Self { harmonic_count: 0, band_count: 0 }
    }
}

} // verus!

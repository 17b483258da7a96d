//! Errors of the vocoder's parameter extraction.

use vstd::prelude::*;
use vstd::string::StringExecFns;
use crate::p25::text::{decimal, push_decimal};

verus! {

/// Errors that can occur while extracting voice parameters.
///
/// Both indicate that a bit allocation does not fit the scanned bits of
/// a frame, a logic error rather than an RF condition.
#[derive(Debug, Clone, Copy, PartialEq, Eq, Structural)]
pub enum VocoderError {
    /// The scan ran out of bits before every allocated bit was filled.
    ScanExhausted {
        /// Number of harmonics L of the frame.
        harmonic_count: u32,
    },
    /// Bits of the scan were left over after every allocated bit was filled.
    ScanNotExhausted {
        /// Number of harmonics L of the frame.
        harmonic_count: u32,
    },
}

/// The message of a vocoder error.
pub open spec fn vocoder_error_text(e: VocoderError) -> Seq<char> {
    match e {
        VocoderError::ScanExhausted { harmonic_count } => "scan exhausted before the amplitudes of "@
            + decimal(harmonic_count as nat) + " harmonics were filled"@,
        VocoderError::ScanNotExhausted { harmonic_count } => "scan bits left over after the amplitudes of "@
            + decimal(harmonic_count as nat) + " harmonics were filled"@,
    }
}

impl VocoderError {
    /// The error's message.
    pub fn to_string(&self) -> (r: String)
        ensures
            r@ == vocoder_error_text(*self),
    {
        match self {
            VocoderError::ScanExhausted { harmonic_count } => {
                let mut s = String::from_str("scan exhausted before the amplitudes of ");
                push_decimal(&mut s, *harmonic_count as u64);
                s.append(" harmonics were filled");
                s
            },
            VocoderError::ScanNotExhausted { harmonic_count } => {
                let mut s = String::from_str("scan bits left over after the amplitudes of ");
                push_decimal(&mut s, *harmonic_count as u64);
                s.append(" harmonics were filled");
                s
            },
        }
    }
}

} // verus!

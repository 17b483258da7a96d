//! Received IMBE voice frame types for the vocoder.
//!
//! These types represent decoded IMBE voice data ready for vocoder processing.
//! The upstream P25 layer produces [`crate::p25::voice::frame::VoiceFrame`] from
//! the RF pipeline; a conversion bridges it into the vocoder's
//! [`ReceivedFrame`].

use vstd::prelude::*;
use crate::p25::voice::frame::VoiceFrame;

verus! {

/// A received IMBE voice frame ready for vocoder decoding.
///
/// Contains the 8 prioritized bit vector chunks extracted from the P25 voice
/// frame after FEC decoding, plus the per-chunk error counts.
#[derive(Debug, Clone)]
pub struct ReceivedFrame {
    /// Prioritized bit vector chunks u_0 through u_7.
    ///
    /// - u_0..u_3: 12 bits each (Golay-decoded)
    /// - u_4..u_6: 11 bits each (Hamming-decoded)
    /// - u_7: 7 bits (unprotected)
    pub chunks: [u32; 8],
    /// FEC error correction counts for u_0 through u_6.
    pub errors: [usize; 7],
}

/// Whether each chunk fits its bit width: 12 bits for u_0..u_3, 11 bits
/// for u_4..u_6 and 7 bits for u_7.
pub open spec fn chunks_fit(chunks: Seq<u32>) -> bool {
    &&& forall|i: int| 0 <= i < 4 ==> #[trigger] chunks[i] < 0x1000
    &&& forall|i: int| 4 <= i < 7 ==> #[trigger] chunks[i] < 0x800
    &&& chunks[7] < 0x80
}

impl ReceivedFrame {
    /// Create a new `ReceivedFrame` from decoded chunks and error counts,
    /// each chunk within its bit width.
    pub fn new(chunks: [u32; 8], errors: [usize; 7]) -> (r: Self)
        requires
            chunks_fit(chunks@),
        ensures
            r.chunks == chunks,
            r.errors == errors,
    {
        Self { chunks, errors }
    }

    /// Convert a P25 voice frame into a vocoder received frame, copying its
    /// chunks and error counts.
    pub fn from_voice_frame(voice_frame: &VoiceFrame) -> (r: Self)
        ensures
            r.chunks == voice_frame.chunks,
            r.errors == voice_frame.errors,
    {
        Self { chunks: voice_frame.chunks, errors: voice_frame.errors }
    }
}

} // verus!

//! Error types for P25 protocol decoding.

use vstd::prelude::*;
use vstd::string::StringExecFns;
use crate::p25::text::{decimal, digits, padded_digits, push_decimal, push_digits, push_padded};

verus! {

/// Errors that can occur during P25 protocol decoding.
#[allow(inconsistent_fields)]
#[derive(Debug)]
pub enum P25Error {
    /// CRC check failed on a TSBK payload.
    CrcMismatch {
        /// Expected CRC value from the payload.
        expected: u16,
        /// Computed CRC value.
        actual: u16,
    },
    /// Trellis decoding failed.
    TrellisDecode {
        /// Description of what went wrong.
        reason: String,
    },
    /// Frame sync not found within expected window.
    NoFrameSync,
    /// NID decoding failed.
    NidDecode {
        /// Description of what went wrong.
        reason: String,
    },
    /// A NID was rejected by the integrity policy.
    NidRejected {
        /// Which integrity check failed.
        reason: &'static str,
        /// Network access code carried by the rejected NID.
        nac: u16,
        /// Data unit identifier carried by the rejected NID.
        duid: u8,
    },
    /// Payload too short to parse.
    PayloadTooShort {
        /// Minimum expected length.
        expected: usize,
        /// Actual length.
        actual: usize,
    },
    /// Unknown or unsupported data unit type.
    UnknownDataUnit {
        /// The data unit identifier value.
        duid: u8,
    },
    /// A Golay-protected voice frame chunk could not be corrected.
    VoiceGolayDecode {
        /// Index of the failing chunk (0..=3).
        chunk: usize,
    },
    /// A Hamming-protected voice frame chunk could not be corrected.
    VoiceHammingDecode {
        /// Index of the failing chunk (4..=6).
        chunk: usize,
    },
    /// Reed-Solomon short (24,12,13) decoding failed.
    RsShortUnrecoverable,
    /// Reed-Solomon medium (24,16,9) decoding failed.
    RsMediumUnrecoverable,
    /// Reed-Solomon long (36,20,17) decoding failed.
    RsLongUnrecoverable,
    /// Cyclic (16,8,5) decoding of a low-speed data word failed.
    CyclicUnrecoverable,
}

/// The message of an error.
pub open spec fn error_text(e: P25Error) -> Seq<char> {
    match e {
        P25Error::CrcMismatch { expected, actual } => "CRC mismatch: expected 0x"@ + padded_digits(
            expected as nat,
            16,
            4,
        ) + ", got 0x"@ + padded_digits(actual as nat, 16, 4),
        P25Error::TrellisDecode { reason } => "trellis decode error: "@ + reason@,
        P25Error::NoFrameSync => "frame sync not found"@,
        P25Error::NidDecode { reason } => "NID decode error: "@ + reason@,
        P25Error::NidRejected { reason, nac, duid } => "NID rejected ("@ + reason@ + "): NAC 0x"@
            + padded_digits(nac as nat, 16, 3) + ", DUID 0x"@ + digits(duid as nat, 16),
        P25Error::PayloadTooShort { expected, actual } => "payload too short: expected "@ + decimal(
            expected as nat,
        ) + " bytes, got "@ + decimal(actual as nat),
        P25Error::UnknownDataUnit { duid } => "unknown data unit: DUID 0x"@ + digits(duid as nat, 16),
        P25Error::VoiceGolayDecode { chunk } => "voice frame chunk "@ + decimal(chunk as nat)
            + ": Golay decode failed"@,
        P25Error::VoiceHammingDecode { chunk } => "voice frame chunk "@ + decimal(chunk as nat)
            + ": Hamming decode failed"@,
        P25Error::RsShortUnrecoverable => "Reed-Solomon (24,12,13) decode failed"@,
        P25Error::RsMediumUnrecoverable => "Reed-Solomon (24,16,9) decode failed"@,
        P25Error::RsLongUnrecoverable => "Reed-Solomon (36,20,17) decode failed"@,
        P25Error::CyclicUnrecoverable => "cyclic (16,8,5) decode of low-speed data failed"@,
    }
}

impl P25Error {
    /// The error's message.
    pub fn to_string(&self) -> (r: String)
        ensures
            r@ == error_text(*self),
    {
        match self {
            P25Error::CrcMismatch { expected, actual } => {
                let mut s = String::from_str("CRC mismatch: expected 0x");
                push_padded(&mut s, *expected as u64, 16, 4);
                s.append(", got 0x");
                push_padded(&mut s, *actual as u64, 16, 4);
                s
            },
            P25Error::TrellisDecode { reason } => {
                let mut s = String::from_str("trellis decode error: ");
                s.append(reason.as_str());
                s
            },
            P25Error::NoFrameSync => String::from_str("frame sync not found"),
            P25Error::NidDecode { reason } => {
                let mut s = String::from_str("NID decode error: ");
                s.append(reason.as_str());
                s
            },
            P25Error::NidRejected { reason, nac, duid } => {
                let mut s = String::from_str("NID rejected (");
                s.append(reason);
                s.append("): NAC 0x");
                push_padded(&mut s, *nac as u64, 16, 3);
                s.append(", DUID 0x");
                push_digits(&mut s, *duid as u64, 16);
                s
            },
            P25Error::PayloadTooShort { expected, actual } => {
                let mut s = String::from_str("payload too short: expected ");
                push_decimal(&mut s, *expected as u64);
                s.append(" bytes, got ");
                push_decimal(&mut s, *actual as u64);
                s
            },
            P25Error::UnknownDataUnit { duid } => {
                let mut s = String::from_str("unknown data unit: DUID 0x");
                push_digits(&mut s, *duid as u64, 16);
                s
            },
            P25Error::VoiceGolayDecode { chunk } => {
                let mut s = String::from_str("voice frame chunk ");
                push_decimal(&mut s, *chunk as u64);
                s.append(": Golay decode failed");
                s
            },
            P25Error::VoiceHammingDecode { chunk } => {
                let mut s = String::from_str("voice frame chunk ");
                push_decimal(&mut s, *chunk as u64);
                s.append(": Hamming decode failed");
                s
            },
            P25Error::RsShortUnrecoverable => String::from_str("Reed-Solomon (24,12,13) decode failed"),
            P25Error::RsMediumUnrecoverable => String::from_str("Reed-Solomon (24,16,9) decode failed"),
            P25Error::RsLongUnrecoverable => String::from_str("Reed-Solomon (36,20,17) decode failed"),
            P25Error::CyclicUnrecoverable => String::from_str(
                "cyclic (16,8,5) decode of low-speed data failed",
            ),
        }
    }
}

} // verus!

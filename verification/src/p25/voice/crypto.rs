//! Crypto Control fields from LDU2 voice frames.
//!
//! The Crypto Control payload (12 bytes) carries the information needed
//! to decrypt an encrypted voice transmission: initialization vector,
//! algorithm identifier, and encryption key ID.

use vstd::prelude::*;
use vstd::string::StringExecFns;
use crate::p25::text::{padded_digits, push_padded};

verus! {

/// Number of bytes in a Crypto Control payload.
pub const CRYPTO_CONTROL_BYTES: usize = 12;

/// Crypto Control fields decoded from an LDU2 frame.
///
/// Layout (12 bytes):
/// - Bytes 0..9: Crypto initialization vector (72 bits)
/// - Byte 9: Algorithm ID (ALGID)
/// - Bytes 10..12: Key ID (16 bits)
#[derive(Clone, Copy, Debug, PartialEq, Eq)]
pub struct CryptoControlFields([u8; 12]);

impl View for CryptoControlFields {
    type V = Seq<u8>;

    /// The twelve payload bytes.
    closed spec fn view(&self) -> Seq<u8> {
        self.0@
    }
}

/// The display text of a Crypto Control word with the given algorithm
/// byte and key identifier.
pub open spec fn crypto_control_text(algorithm: u8, key_id: nat) -> Seq<char> {
    "algorithm="@ + algorithm_text(algorithm_for(algorithm)) + ", key_id=0x"@ + padded_digits(key_id, 16, 4)
}

impl CryptoControlFields {
    /// Create from a 12-byte buffer.
    pub fn new(buf: [u8; 12]) -> (r: Self)
        ensures
            r@ == buf@,
    {
        Self(buf)
    }

    /// The 9-byte initialization vector for the crypto algorithm.
    pub fn initialization_vector(&self) -> (r: &[u8])
        ensures
            r@ == self@.subrange(0, 9),
    {
        vstd::slice::slice_subrange(self.0.as_slice(), 0, 9)
    }

    /// The crypto algorithm in use.
    pub fn algorithm(&self) -> (r: CryptoAlgorithm)
        ensures
            r == algorithm_for(self@[9]),
    {
        CryptoAlgorithm::from_byte(self.0[9])
    }

    /// The 16-bit encryption key identifier.
    pub fn key_id(&self) -> (r: u16)
        ensures
            r == self@[10] * 256 + self@[11],
    {
        (self.0[10] as u16) * 256 + (self.0[11] as u16)
    }

    /// The display text: algorithm and key identifier.
    pub fn to_string(&self) -> (r: String)
        ensures
            r@ == crypto_control_text(self@[9], (self@[10] * 256 + self@[11]) as nat),
    {
        let mut s = String::from_str("algorithm=");
        let a = self.algorithm().to_string();
        s.append(a.as_str());
        s.append(", key_id=0x");
        push_padded(&mut s, self.key_id() as u64, 16, 4);
        s
    }
}

/// Cryptographic algorithm identifier (ALGID).
///
/// Values from TIA-102.AABF.
#[derive(Clone, Copy, Debug, PartialEq, Eq)]
pub enum CryptoAlgorithm {
    /// Type 1: Accordion (0x00).
    Accordion,
    /// Type 1: Baton Even (0x01).
    BatonEven,
    /// Type 1: Firefly (0x02).
    Firefly,
    /// Type 1: Mayfly (0x03).
    Mayfly,
    /// Type 1: Saville (0x04).
    Saville,
    /// Type 1: Baton Odd (0x41).
    BatonOdd,
    /// No encryption (0x80).
    Unencrypted,
    /// Type 3: DES-OFB (0x81).
    Des,
    /// Type 3: Triple DES (0x83).
    TripleDes,
    /// Type 3: AES-256 (0x84).
    Aes,
    /// Unknown or vendor-specific algorithm.
    Unknown(u8),
}

/// The algorithm for an identifier byte.
pub open spec fn algorithm_for(value: u8) -> CryptoAlgorithm {
    if false {
        CryptoAlgorithm::Unknown(value)
    } else if value == 0x00 {
        CryptoAlgorithm::Accordion
    } else if value == 0x01 {
        CryptoAlgorithm::BatonEven
    } else if value == 0x02 {
        CryptoAlgorithm::Firefly
    } else if value == 0x03 {
        CryptoAlgorithm::Mayfly
    } else if value == 0x04 {
        CryptoAlgorithm::Saville
    } else if value == 0x41 {
        CryptoAlgorithm::BatonOdd
    } else if value == 0x80 {
        CryptoAlgorithm::Unencrypted
    } else if value == 0x81 {
        CryptoAlgorithm::Des
    } else if value == 0x83 {
        CryptoAlgorithm::TripleDes
    } else if value == 0x84 {
        CryptoAlgorithm::Aes
    } else {
        CryptoAlgorithm::Unknown(value)
    }
}

/// The identifier byte of an algorithm.
pub open spec fn algorithm_value(a: CryptoAlgorithm) -> u8 {
    match a {
        CryptoAlgorithm::Accordion => 0x00,
        CryptoAlgorithm::BatonEven => 0x01,
        CryptoAlgorithm::Firefly => 0x02,
        CryptoAlgorithm::Mayfly => 0x03,
        CryptoAlgorithm::Saville => 0x04,
        CryptoAlgorithm::BatonOdd => 0x41,
        CryptoAlgorithm::Unencrypted => 0x80,
        CryptoAlgorithm::Des => 0x81,
        CryptoAlgorithm::TripleDes => 0x83,
        CryptoAlgorithm::Aes => 0x84,
        CryptoAlgorithm::Unknown(v) => v,
    }
}

/// The display name of a known algorithm.
pub open spec fn algorithm_name(a: CryptoAlgorithm) -> Seq<char> {
    match a {
        CryptoAlgorithm::Accordion => "Accordion"@,
        CryptoAlgorithm::BatonEven => "Baton Even"@,
        CryptoAlgorithm::Firefly => "Firefly"@,
        CryptoAlgorithm::Mayfly => "Mayfly"@,
        CryptoAlgorithm::Saville => "Saville"@,
        CryptoAlgorithm::BatonOdd => "Baton Odd"@,
        CryptoAlgorithm::Unencrypted => "Unencrypted"@,
        CryptoAlgorithm::Des => "DES-OFB"@,
        CryptoAlgorithm::TripleDes => "3DES"@,
        CryptoAlgorithm::Aes => "AES-256"@,
        CryptoAlgorithm::Unknown(_) => "Unknown"@,
    }
}

/// The display text of an algorithm: its name, or `Unknown(0x..)` with two
/// hexadecimal digits.
pub open spec fn algorithm_text(a: CryptoAlgorithm) -> Seq<char> {
    match a {
        CryptoAlgorithm::Unknown(b) => "Unknown(0x"@ + padded_digits(b as nat, 16, 2) + ")"@,
        _ => algorithm_name(a),
    }
}

impl CryptoAlgorithm {
    /// Parse a crypto algorithm from its 8-bit identifier.
    pub fn from_byte(byte: u8) -> (r: Self)
        ensures
            r == algorithm_for(byte),
    {
        match byte {
            0x00 => Self::Accordion,
            0x01 => Self::BatonEven,
            0x02 => Self::Firefly,
            0x03 => Self::Mayfly,
            0x04 => Self::Saville,
            0x41 => Self::BatonOdd,
            0x80 => Self::Unencrypted,
            0x81 => Self::Des,
            0x83 => Self::TripleDes,
            0x84 => Self::Aes,
            b => Self::Unknown(b),
        }
    }

    /// The name of a known algorithm (`Unknown` for an unknown one).
    fn name(&self) -> (r: &'static str)
        ensures
            r@ == algorithm_name(*self),
    {
        match self {
            Self::Accordion => "Accordion",
            Self::BatonEven => "Baton Even",
            Self::Firefly => "Firefly",
            Self::Mayfly => "Mayfly",
            Self::Saville => "Saville",
            Self::BatonOdd => "Baton Odd",
            Self::Unencrypted => "Unencrypted",
            Self::Des => "DES-OFB",
            Self::TripleDes => "3DES",
            Self::Aes => "AES-256",
            Self::Unknown(_) => "Unknown",
        }
    }

    /// The display text of the algorithm.
    pub fn to_string(&self) -> (r: String)
        ensures
            r@ == algorithm_text(*self),
    {
        match self {
            Self::Unknown(b) => {
                let mut s = String::from_str("Unknown(0x");
                push_padded(&mut s, *b as u64, 16, 2);
                s.append(")");
                s
            },
            _ => String::from_str(self.name()),
        }
    }
}

/// Every identifier byte parses to an algorithm that carries it back.
pub proof fn lemma_algorithm_roundtrip(value: u8)
    ensures
        algorithm_value(algorithm_for(value)) == value,
{
}

} // verus!

//! Network Identifier (NID) decoder with BCH error correction.
//!
//! Decodes the 64-bit NID word that follows every frame sync pattern.
//! The NID contains a BCH(63,16,23) codeword (bits 63-1) and an
//! overall parity bit (bit 0). The BCH code protects the 12-bit NAC
//! and 4-bit DUID, correcting up to 11 bit errors.

use vstd::prelude::*;
use vstd::string::StringExecFns;
use crate::p25::bch;
use crate::p25::bch::{bch_decoded, bit_count, is_codeword, low_bits};
use crate::p25::consts::NID_DIBITS;
use crate::p25::error::P25Error;
use crate::p25::text::{decimal, push_decimal};
use crate::p25::types::{Dibit, Nac};

verus! {

/// Policy for gating data unit routing on NID integrity.
///
/// Controls whether the receiver accepts or rejects NIDs that fail
/// integrity checks.
#[derive(Debug, Clone, Copy, PartialEq, Eq, Default)]
pub enum NidIntegrityPolicy {
    /// Reject NIDs that fail integrity checks. The receiver skips the
    /// data unit and waits for the next frame sync.
    #[default]
    Strict,
    /// Accept NIDs that fail integrity checks.
    /// Useful for development and debugging noisy channels.
    Permissive,
}

/// Data Unit Identifier: identifies the type of P25 data unit.
#[derive(Debug, Clone, Copy, PartialEq, Eq)]
pub enum DataUnit {
    /// Voice header data unit (HDU), DUID = 0x0.
    VoiceHeader,
    /// Trunking signaling data unit (TSDU), DUID = 0x7.
    TrunkingSignaling,
    /// Voice simple terminator (TDU), DUID = 0x3.
    VoiceSimpleTerminator,
    /// Voice LC terminator (TDULC), DUID = 0xF.
    VoiceLcTerminator,
    /// Voice LC frame group 1 (LDU1), DUID = 0x5.
    VoiceLcFrameGroup,
    /// Voice CC frame group 2 (LDU2), DUID = 0xA.
    VoiceCcFrameGroup,
    /// Packet data unit, DUID = 0xC.
    DataPacket,
    /// Unrecognized DUID value.
    Unknown(u8),
}

/// The data unit named by the low four bits of `bits`.
pub open spec fn data_unit_of(bits: u8) -> DataUnit {
    let v = bits % 16;
    if v == 0x0 {
        DataUnit::VoiceHeader
    } else if v == 0x3 {
        DataUnit::VoiceSimpleTerminator
    } else if v == 0x5 {
        DataUnit::VoiceLcFrameGroup
    } else if v == 0x7 {
        DataUnit::TrunkingSignaling
    } else if v == 0xA {
        DataUnit::VoiceCcFrameGroup
    } else if v == 0xC {
        DataUnit::DataPacket
    } else if v == 0xF {
        DataUnit::VoiceLcTerminator
    } else {
        DataUnit::Unknown(v)
    }
}

/// The raw 4-bit DUID value of a data unit.
pub open spec fn data_unit_bits(du: DataUnit) -> u8 {
    match du {
        DataUnit::VoiceHeader => 0x0,
        DataUnit::VoiceSimpleTerminator => 0x3,
        DataUnit::VoiceLcFrameGroup => 0x5,
        DataUnit::TrunkingSignaling => 0x7,
        DataUnit::VoiceCcFrameGroup => 0xA,
        DataUnit::DataPacket => 0xC,
        DataUnit::VoiceLcTerminator => 0xF,
        DataUnit::Unknown(v) => v,
    }
}

impl DataUnit {
    /// Decode a 4-bit DUID value.
    pub fn from_bits(bits: u8) -> (r: Self)
        ensures
            r == data_unit_of(bits),
    {
        proof {
            crate::p25::bitwise::lemma_mask_u8(bits);
        }
        match bits & 0x0F {
            0x0 => Self::VoiceHeader,
            0x3 => Self::VoiceSimpleTerminator,
            0x5 => Self::VoiceLcFrameGroup,
            0x7 => Self::TrunkingSignaling,
            0xA => Self::VoiceCcFrameGroup,
            0xC => Self::DataPacket,
            0xF => Self::VoiceLcTerminator,
            other => Self::Unknown(other),
        }
    }

    /// Return the raw 4-bit DUID value.
    pub fn to_bits(self) -> (r: u8)
        ensures
            r == data_unit_bits(self),
    {
        match self {
            Self::VoiceHeader => 0x0,
            Self::VoiceSimpleTerminator => 0x3,
            Self::VoiceLcFrameGroup => 0x5,
            Self::TrunkingSignaling => 0x7,
            Self::VoiceCcFrameGroup => 0xA,
            Self::DataPacket => 0xC,
            Self::VoiceLcTerminator => 0xF,
            Self::Unknown(v) => v,
        }
    }

    /// Whether this data unit is a trunking signaling data unit (TSDU).
    pub fn is_trunking_signaling(self) -> (r: bool)
        ensures
            r == (self is TrunkingSignaling),
    {
        match self {
            Self::TrunkingSignaling => true,
            _ => false,
        }
    }
}

/// Reading the bits of a data unit back gives the data unit again.
pub proof fn lemma_data_unit_roundtrip(bits: u8)
    requires
        bits < 16,
    ensures
        data_unit_bits(data_unit_of(bits)) == bits,
{
}

/// Decoded Network Identifier.
#[derive(Debug, Clone, Copy, PartialEq, Eq)]
pub struct NetworkId {
    /// Network Access Code (12 bits).
    pub access_code: Nac,
    /// Data unit type.
    pub data_unit: DataUnit,
    /// Whether the NID passed its integrity check (BCH correction).
    pub parity_ok: bool,
}

/// The value of a run of dibits, first dibit most significant.
pub open spec fn dibits_value(s: Seq<Dibit>) -> nat
    decreases s.len(),
{
    if s.len() == 0 {
        0
    } else {
        dibits_value(s.drop_last()) * 4 + (s.last()@ as nat)
    }
}

/// The fields carried by the 16 data bits of a BCH codeword: the NAC
/// (upper 12 bits) and the DUID (lower 4 bits).
pub open spec fn codeword_fields(c: u64) -> (u16, u8) {
    let data = ((c >> 47u64) & 0xFFFF) as u16;
    ((data >> 4u16) & 0x0FFF, (data & 0x0F) as u8)
}

/// The NID fields read directly from the received word, without
/// correction.
pub open spec fn raw_fields(word: u64) -> (u16, u8) {
    (((word >> 52u64) & 0x0FFF) as u16, ((word >> 48u64) & 0x0F) as u8)
}

/// The message for a NID of the wrong length.
pub open spec fn wrong_length_reason(len: nat) -> Seq<char> {
    "expected 32 dibits, got "@ + decimal(len)
}

/// What decoding the NID dibits `dibits` gives: an error for a run of the
/// wrong length; for 32 dibits, the fields of the codeword that BCH
/// decoding of the word gives, with `parity_ok` set (the codeword itself
/// when the BCH word is one, else one within 11 bit errors), and the raw
/// fields, with `parity_ok` clear, when it gives none.
pub open spec fn nid_decoded(dibits: Seq<Dibit>, r: Result<NetworkId, P25Error>) -> bool {
    &&& dibits.len() != 32 ==> (r matches Err(P25Error::NidDecode { reason }) && reason@
        == wrong_length_reason(dibits.len()))
    &&& dibits.len() == 32 ==> (r matches Ok(nid) && ({
        let word = dibits_value(dibits) as u64;
        let cw = low_bits(word >> 1u64);
        &&& match bch_decoded(word >> 1u64) {
            Some(res) => nid.parity_ok && nid.access_code@ == codeword_fields(res.corrected).0
                && nid.data_unit == data_unit_of(codeword_fields(res.corrected).1),
            None => !nid.parity_ok,
        }
        &&& is_codeword(cw) ==> nid.parity_ok && nid.access_code@ == codeword_fields(cw).0
            && nid.data_unit == data_unit_of(codeword_fields(cw).1)
        &&& nid.parity_ok ==> exists|c: u64|
            #![trigger codeword_fields(c)]
            is_codeword(c) && bit_count(c ^ cw, 64) <= 11 && nid.access_code@
                == codeword_fields(c).0 && nid.data_unit == data_unit_of(codeword_fields(c).1)
        &&& !nid.parity_ok ==> nid.access_code@ == raw_fields(word).0 && nid.data_unit
            == data_unit_of(raw_fields(word).1)
    }))
}

/// The NID read from 32 dibits is a function of the dibits: any two
/// results that meet [`nid_decoded`], such as those of `decode_nid` and of
/// the data unit receiver on the same dibits, agree on the integrity flag
/// and the fields.
pub proof fn lemma_nid_decoded_unique(dibits: Seq<Dibit>, r1: Result<NetworkId, P25Error>, r2: Result<NetworkId, P25Error>)
    requires
        dibits.len() == 32,
        nid_decoded(dibits, r1),
        nid_decoded(dibits, r2),
    ensures
        r1 matches Ok(a) && r2 matches Ok(b) && a.parity_ok == b.parity_ok && a.access_code@ == b.access_code@
            && a.data_unit == b.data_unit,
{
}

/// A NID whose BCH word is a codeword with at most one bit flipped passes
/// its integrity check and carries the codeword's fields.
pub proof fn lemma_nid_single_error(dibits: Seq<Dibit>, r: Result<NetworkId, P25Error>, c: u64, p: u64)
    requires
        dibits.len() == 32,
        nid_decoded(dibits, r),
        is_codeword(c),
        c < 0x8000_0000_0000_0000,
        p < 63,
        low_bits((dibits_value(dibits) as u64) >> 1u64) == c ^ (1u64 << p),
    ensures
        r matches Ok(nid) && nid.parity_ok && nid.access_code@ == codeword_fields(c).0 && nid.data_unit
            == data_unit_of(codeword_fields(c).1),
{
    bch::lemma_corrects_single(c, p);
    let x = (dibits_value(dibits) as u64) >> 1u64;
    crate::p25::bitwise::lemma_bit_u64(c, 0, p);
    assert(low_bits(c ^ (1u64 << p)) == c ^ (1u64 << p));
    assert(bch_decoded(x) == bch_decoded(c ^ (1u64 << p)));
}

/// Decode a NID from 32 data dibits with BCH error correction.
///
/// Applies BCH(63,16,23) error correction to the 63-bit codeword
/// (bits 63-1), then extracts NAC and DUID from the corrected data.
/// Can correct up to 11 bit errors in the codeword. Falls back to
/// uncorrected extraction, with `parity_ok` false, if BCH fails (more
/// than 11 errors).
#[verifier::rlimit(40)]
pub fn decode_nid(dibits: &[Dibit]) -> (r: Result<NetworkId, P25Error>)
    ensures
        nid_decoded(dibits@, r),
{
    if dibits.len() != NID_DIBITS {
        let mut reason = String::from_str("expected 32 dibits, got ");
        push_decimal(&mut reason, dibits.len() as u64);
        return Err(P25Error::NidDecode { reason });
    }
    let word = dibits_to_u64(dibits);

    // Separate the 63-bit BCH codeword (bits 63-1) from the parity bit (bit 0).
    let bch_word = word >> 1;

    match bch::decode(bch_word) {
        Some(result) => {
            // BCH correction succeeded: extract data from corrected codeword.
            let data = bch::extract_data(result.corrected);
            let nac_bits = (data >> 4) & 0x0FFF;
            let duid_bits = (data & 0x0F) as u8;
            proof {
                assert(data == ((result.corrected >> 47u64) & 0xFFFF) as u16);
                crate::p25::bitwise::lemma_mask_u16(data >> 4u16);
                let c = result.corrected;
                assert(codeword_fields(c).0 == nac_bits && codeword_fields(c).1 == duid_bits);
                assert(is_codeword(c) && bit_count(c ^ low_bits(word >> 1u64), 64) <= 11);
            }
            // The BCH success is the integrity check.
            Ok(NetworkId {
                access_code: Nac::new(nac_bits),
                data_unit: DataUnit::from_bits(duid_bits),
                parity_ok: true,
            })
        },
        None => {
            // BCH failed: fall back to uncorrected extraction.
            let nac_bits = ((word >> 52) & 0x0FFF) as u16;
            let duid_bits = ((word >> 48) & 0x0F) as u8;
            proof {
                crate::p25::bitwise::lemma_mask_u64(word >> 52u64);
            }
            Ok(NetworkId {
                access_code: Nac::new(nac_bits),
                data_unit: DataUnit::from_bits(duid_bits),
                parity_ok: false,
            })
        },
    }
}

/// The value of `n` dibits is below 4^n.
proof fn lemma_dibits_value_bound(s: Seq<Dibit>)
    ensures
        dibits_value(s) < vstd::arithmetic::power2::pow2(2 * s.len()),
    decreases s.len(),
{
    vstd::arithmetic::power2::lemma2_to64();
    if s.len() > 0 {
        let prev = s.drop_last();
        lemma_dibits_value_bound(prev);
        let n = s.len();
        assert(2 * prev.len() == (2 * n - 2) as nat);
        vstd::arithmetic::power2::lemma_pow2_unfold((2 * n) as nat);
        vstd::arithmetic::power2::lemma_pow2_unfold((2 * n - 1) as nat);
        assert(vstd::arithmetic::power2::pow2((2 * n) as nat) == 4 * vstd::arithmetic::power2::pow2(
            (2 * n - 2) as nat,
        ));
        crate::p25::types::lemma_dibit_bound(s.last());
    }
}

/// Convert up to 32 dibits to a 64-bit word (MSB first).
pub fn dibits_to_u64(dibits: &[Dibit]) -> (r: u64)
    requires
        dibits@.len() <= 32,
    ensures
        r == dibits_value(dibits@),
{
    let mut word: u64 = 0;
    let mut i: usize = 0;
    while i < dibits.len()
        invariant
            i <= dibits@.len() <= 32,
            word == dibits_value(dibits@.subrange(0, i as int)),
        decreases dibits@.len() - i,
    {
        let d = dibits[i];
        let b = d.bits() as u64;
        proof {
            let prefix = dibits@.subrange(0, i as int);
            lemma_dibits_value_bound(prefix);
            vstd::arithmetic::power2::lemma2_to64();
            vstd::arithmetic::power2::lemma2_to64_rest();
            if 2 * i < 62 {
                vstd::arithmetic::power2::lemma_pow2_strictly_increases(2 * i as nat, 62);
            }
            let next = dibits@.subrange(0, i + 1);
            assert(next.drop_last() =~= prefix);
            assert(prefix.len() == i);
            assert(word < vstd::arithmetic::power2::pow2(2 * i as nat));
            assert(vstd::arithmetic::power2::pow2(2 * i as nat) <= vstd::arithmetic::power2::pow2(62));
            assert(word < 0x4000_0000_0000_0000);
            crate::p25::bitwise::lemma_shl2_or(word, b);
        }
        word = (word << 2) | b;
        i += 1;
    }
    assert(dibits@.subrange(0, dibits@.len() as int) =~= dibits@);
    word
}

} // verus!

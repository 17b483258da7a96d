//! TSBK parsing: bytes to structured messages.
//!
//! The top-level entry point is [`parse_tsbk`], which takes a 12-byte TSBK
//! (after trellis decoding), validates the CRC-16, extracts the header fields,
//! and dispatches to per-opcode field parsers.
//!
//! ## Bit Layout (96-bit TSBK)
//!
//! ```text
//! Bit 95 (index 0): Last Block flag
//! Bit 94 (index 1): Protected flag
//! Bits 93-88 (index 2..8): Opcode (6 bits)
//! Bits 87-80 (index 8..16): Manufacturer ID (8 bits)
//! Bits 79-16 (index 16..80): Opcode-specific payload (64 bits)
//! Bits 15-0 (index 80..96): CRC-16 (16 bits)
//! ```
//!
//! Bit index mapping: `index = 95 - tia102_bit_number`
//!
//! Reference: TIA-102.AABF-A Section 7.1

use vstd::prelude::*;
use vstd::string::StringExecFns;
use vstd::arithmetic::power2::pow2;
use super::fields::TsbkFields;
use super::opcode::{TsbkOpcode, opcode_for};
use crate::p25::crc::{CrcError, crc_error_text, spec_crc16, transmitted_crc, validate_tsbk_crc};
use crate::p25::text::{decimal, push_decimal};
use crate::p25::types::{
    ChannelId, ChannelIdentifier, ManufacturerId, RfssId, SiteId, SystemId, TalkgroupId, UnitId, Wacn,
};
use crate::p25::voice::control::ServiceOptions;
use crate::util::bits::{bits_value, extract_u8, extract_u16, extract_u32, lemma_bits_value_bound};

verus! {

/// TSBK data length in bytes (96 bits).
const TSBK_LENGTH_BYTES: usize = 12;

/// Motorola manufacturer ID, used for vendor-specific opcode variants.
const MFRID_MOTOROLA: u8 = 0x90;

/// A fully parsed TSBK message.
#[derive(Debug, Clone, Copy, PartialEq)]
pub struct TsbkMessage {
    /// Whether this is the last block in a multi-block sequence.
    pub last_block: bool,
    /// Whether this TSBK is protected (encrypted control signaling).
    pub protected: bool,
    /// The opcode identifying this message type.
    pub opcode: TsbkOpcode,
    /// The manufacturer ID. 0x00 = standard P25.
    pub manufacturer_id: ManufacturerId,
    /// Parsed fields specific to this opcode.
    pub fields: TsbkFields,
}

/// Errors that can occur during TSBK parsing.
#[derive(Debug, Clone, Copy, PartialEq, Eq, Structural)]
pub enum TsbkError {
    /// The input data is not the expected 12 bytes.
    InvalidLength(usize),
    /// CRC-16 validation failed.
    Crc(CrcError),
}

/// The message of a TSBK error.
pub open spec fn tsbk_error_text(e: TsbkError) -> Seq<char> {
    match e {
        TsbkError::InvalidLength(n) => "invalid TSBK data length: expected 12 bytes, got "@ + decimal(
            n as nat,
        ),
        TsbkError::Crc(c) => crc_error_text(c),
    }
}

impl TsbkError {
    /// The error's message.
    pub fn to_string(&self) -> (r: String)
        ensures
            r@ == tsbk_error_text(*self),
    {
        match self {
            TsbkError::InvalidLength(n) => {
                let mut s = String::from_str("invalid TSBK data length: expected 12 bytes, got ");
                push_decimal(&mut s, *n as u64);
                s
            },
            TsbkError::Crc(c) => c.to_string(),
        }
    }
}

/// The bits `start..end` of the TSBK `d`.
pub open spec fn field(d: Seq<u8>, start: nat, end: nat) -> nat {
    bits_value(d, start, end)
}

/// A signed transmit offset: the low `bits - 1` bits of `raw` as the
/// magnitude, positive when bit `bits - 1` is set and negative otherwise.
pub open spec fn signed_offset(raw: nat, sign_weight: nat) -> int {
    if (raw / sign_weight) % 2 == 0 {
        -((raw % sign_weight) as int)
    } else {
        (raw % sign_weight) as int
    }
}

/// Channel spacing, transmit offset and base frequency, in hertz, of the
/// VHF/UHF and TDMA identifier updates.
pub open spec fn iden_vu_params(toff_raw: nat, spac_raw: nat, freq_raw: nat) -> (int, int, int) {
    ((spac_raw * 125) as int, signed_offset(toff_raw, 8192) * spac_raw * 125, (freq_raw * 5) as int)
}

/// Whether `f` holds the fields that the layout of `opcode`, with
/// manufacturer `mfrid`, places in the TSBK `d`.
pub open spec fn fields_decoded(d: Seq<u8>, opcode: TsbkOpcode, mfrid: u8, f: TsbkFields) -> bool {
    match opcode {
        TsbkOpcode::GroupVoiceChannelGrant => if mfrid == 0x90 {
            f matches TsbkFields::MotorolaGroupRegroupCommand { supergroup, group_a, group_b, group_c }
                && supergroup@ == field(d, 16, 32) && group_a@ == field(d, 32, 48) && group_b@ == field(
                d,
                48,
                64,
            ) && group_c@ == field(d, 64, 80)
        } else {
            f matches TsbkFields::GroupVoiceChannelGrant { service_options, channel, talkgroup, source }
                && service_options@ == field(d, 16, 24) && channel.0 == field(d, 24, 40) && talkgroup@
                == field(d, 40, 56) && source.0 == field(d, 56, 80)
        },
        TsbkOpcode::GroupVoiceChannelGrantUpdate => f matches TsbkFields::GroupVoiceChannelGrantUpdate {
            channel_a,
            talkgroup_a,
            channel_b,
            talkgroup_b,
        } && channel_a.0 == field(d, 16, 32) && talkgroup_a@ == field(d, 32, 48) && channel_b.0 == field(
            d,
            48,
            64,
        ) && talkgroup_b@ == field(d, 64, 80),
        TsbkOpcode::GroupVoiceChannelGrantUpdateExplicit => f matches TsbkFields::GroupVoiceChannelGrantUpdateExplicit {
            channel_a,
            talkgroup_a,
            channel_b,
            talkgroup_b,
        } && channel_a.0 == field(d, 16, 32) && talkgroup_a@ == field(d, 32, 48) && channel_b.0 == field(
            d,
            48,
            64,
        ) && talkgroup_b@ == field(d, 64, 80),
        TsbkOpcode::UnitToUnitVoiceChannelGrant => f matches TsbkFields::UnitToUnitVoiceChannelGrant {
            channel,
            target,
            source,
        } && channel.0 == field(d, 24, 40) && target.0 == field(d, 40, 64) && source.0 == field(d, 56, 80),
        TsbkOpcode::EmergencyAlarm => f matches TsbkFields::EmergencyAlarm { source, talkgroup }
            && source.0 == field(d, 40, 64) && talkgroup@ == field(d, 56, 72),
        TsbkOpcode::AcknowledgeResponse => f matches TsbkFields::AcknowledgeResponse { target, source }
            && target.0 == field(d, 40, 64) && source.0 == field(d, 56, 80),
        TsbkOpcode::DenyResponse => f matches TsbkFields::DenyResponse { talkgroup, source }
            && talkgroup@ == field(d, 40, 56) && source.0 == field(d, 56, 80),
        TsbkOpcode::GroupAffiliationResponse => f matches TsbkFields::GroupAffiliationResponse {
            talkgroup,
            source,
        } && talkgroup@ == field(d, 40, 56) && source.0 == field(d, 56, 80),
        TsbkOpcode::UnitRegistrationResponse => f matches TsbkFields::UnitRegistrationResponse {
            source,
            system_id,
        } && source.0 == field(d, 40, 64) && system_id@ == field(d, 56, 68),
        TsbkOpcode::ChannelIdentifierUpdateVu => f matches TsbkFields::ChannelIdentifierUpdateVu {
            identifier,
            bandwidth_vu,
            transmit_offset,
            channel_spacing,
            base_frequency,
        } && identifier.0 == field(d, 16, 20) && bandwidth_vu == field(d, 20, 24) && (
        channel_spacing as int,
        transmit_offset as int,
        base_frequency as int,
        ) == iden_vu_params(field(d, 24, 38), field(d, 38, 48), field(d, 48, 80)),
        TsbkOpcode::ChannelIdentifierUpdateTdma => f matches TsbkFields::ChannelIdentifierUpdateTdma {
            identifier,
            bandwidth_vu,
            transmit_offset,
            channel_spacing,
            base_frequency,
        } && identifier.0 == field(d, 16, 20) && bandwidth_vu == field(d, 20, 24) && (
        channel_spacing as int,
        transmit_offset as int,
        base_frequency as int,
        ) == iden_vu_params(field(d, 24, 38), field(d, 38, 48), field(d, 48, 80)),
        TsbkOpcode::ChannelIdentifierUpdateStandard => f matches TsbkFields::ChannelIdentifierUpdateStandard {
            identifier,
            bandwidth,
            transmit_offset,
            channel_spacing,
            base_frequency,
        } && identifier.0 == field(d, 16, 20) && bandwidth == field(d, 20, 29) && transmit_offset
            == signed_offset(field(d, 29, 38), 256) * 250_000 && channel_spacing == field(d, 38, 48) * 125
            && base_frequency == field(d, 48, 80) * 5,
        TsbkOpcode::NetworkStatusBroadcast => f matches TsbkFields::NetworkStatusBroadcast {
            wacn,
            system_id,
            channel,
        } && wacn@ == field(d, 24, 44) && system_id@ == field(d, 44, 56) && channel.0 == field(d, 56, 72),
        TsbkOpcode::SecondaryControlChannelBroadcast => f matches TsbkFields::SecondaryControlChannelBroadcast {
            wacn,
            system_id,
            channel,
        } && wacn@ == field(d, 24, 44) && system_id@ == field(d, 44, 56) && channel.0 == field(d, 56, 72),
        TsbkOpcode::RfssStatusBroadcast => f matches TsbkFields::RfssStatusBroadcast {
            system_id,
            rfss,
            site,
            channel,
        } && system_id@ == field(d, 28, 40) && rfss@ == field(d, 40, 48) && site@ == field(d, 48, 56)
            && channel.0 == field(d, 56, 72),
        TsbkOpcode::AdjacentStatusBroadcast => f matches TsbkFields::AdjacentStatusBroadcast {
            system_id,
            rfss,
            site,
            channel,
        } && system_id@ == field(d, 28, 40) && rfss@ == field(d, 40, 48) && site@ == field(d, 48, 56)
            && channel.0 == field(d, 56, 72),
        TsbkOpcode::Unknown(v) => f matches TsbkFields::Unknown { opcode_value, raw_payload }
            && opcode_value == v && raw_payload@ == d.subrange(2, 10),
        _ => f matches TsbkFields::Unimplemented { opcode: recognized, raw_payload } && recognized
            == opcode && raw_payload@ == d.subrange(2, 10),
    }
}

/// Whether the CRC-16 over the first 10 bytes matches the one transmitted
/// in bytes 10-11.
pub open spec fn crc_valid(d: Seq<u8>) -> bool {
    spec_crc16(d.subrange(0, 10)) == transmitted_crc(d)
}

/// Parse a 12-byte TSBK into a structured message.
///
/// Validates the CRC-16, extracts header fields (opcode, manufacturer ID,
/// last block flag), and dispatches to the appropriate per-opcode parser.
///
/// # Errors
///
/// Returns `TsbkError::InvalidLength` if `data` is not exactly 12 bytes.
/// Returns `TsbkError::Crc` if CRC-16 validation fails.
pub fn parse_tsbk(data: &[u8]) -> (r: Result<TsbkMessage, TsbkError>)
    ensures
        data@.len() != 12 <==> r == Err::<TsbkMessage, TsbkError>(TsbkError::InvalidLength(data@.len() as usize)),
        data@.len() == 12 && !crc_valid(data@) ==> r == Err::<TsbkMessage, TsbkError>(
            TsbkError::Crc(
                CrcError::Mismatch {
                    expected: transmitted_crc(data@),
                    computed: spec_crc16(data@.subrange(0, 10)),
                },
            ),
        ),
        r is Ok <==> data@.len() == 12 && crc_valid(data@),
        r is Ok ==> {
            let m = r->Ok_0;
            &&& m.last_block == (field(data@, 0, 1) == 1)
            &&& m.protected == (field(data@, 1, 2) == 1)
            &&& m.opcode == opcode_for(field(data@, 2, 8) as u8)
            &&& m.manufacturer_id.0 == field(data@, 8, 16)
            &&& fields_decoded(data@, m.opcode, m.manufacturer_id.0, m.fields)
        },
{
    if data.len() != TSBK_LENGTH_BYTES {
        return Err(TsbkError::InvalidLength(data.len()));
    }

    let data_array: [u8; 12] = [
        data[0],
        data[1],
        data[2],
        data[3],
        data[4],
        data[5],
        data[6],
        data[7],
        data[8],
        data[9],
        data[10],
        data[11],
    ];
    assert(data_array@ =~= data@);
    match validate_tsbk_crc(&data_array) {
        Ok(()) => {},
        Err(e) => {
            return Err(TsbkError::Crc(e));
        },
    }

    let last_block = extract_u8(data, 0, 1) == 1;
    let protected = extract_u8(data, 1, 2) == 1;
    let opcode_raw = extract_u8(data, 2, 8);
    let mfrid = extract_u8(data, 8, 16);

    let opcode = TsbkOpcode::from_u8(opcode_raw);
    let manufacturer_id = ManufacturerId(mfrid);

    let fields = parse_fields(opcode, manufacturer_id, data);

    Ok(TsbkMessage { last_block, protected, opcode, manufacturer_id, fields })
}

/// Dispatch to the appropriate per-opcode field parser.
fn parse_fields(opcode: TsbkOpcode, mfrid: ManufacturerId, bits: &[u8]) -> (r: TsbkFields)
    requires
        bits@.len() == 12,
    ensures
        fields_decoded(bits@, opcode, mfrid.0, r),
{
    match opcode {
        TsbkOpcode::GroupVoiceChannelGrant => parse_group_voice_channel_grant(bits, mfrid),
        TsbkOpcode::GroupVoiceChannelGrantUpdate => parse_group_voice_channel_grant_update(bits),
        TsbkOpcode::GroupVoiceChannelGrantUpdateExplicit => {
            parse_group_voice_channel_grant_update_explicit(bits)
        },
        TsbkOpcode::UnitToUnitVoiceChannelGrant => parse_unit_to_unit_voice_channel_grant(bits),
        TsbkOpcode::EmergencyAlarm => parse_emergency_alarm(bits),
        TsbkOpcode::AcknowledgeResponse => parse_acknowledge_response(bits),
        TsbkOpcode::DenyResponse => parse_deny_response(bits),
        TsbkOpcode::GroupAffiliationResponse => parse_group_affiliation_response(bits),
        TsbkOpcode::UnitRegistrationResponse => parse_unit_registration_response(bits),
        TsbkOpcode::ChannelIdentifierUpdateVu => parse_iden_up_vu(bits),
        TsbkOpcode::ChannelIdentifierUpdateTdma => parse_iden_up_tdma(bits),
        TsbkOpcode::ChannelIdentifierUpdateStandard => parse_iden_up_standard(bits),
        TsbkOpcode::NetworkStatusBroadcast => parse_network_status_broadcast(bits),
        TsbkOpcode::SecondaryControlChannelBroadcast => parse_secondary_control_channel_broadcast(bits),
        TsbkOpcode::RfssStatusBroadcast => parse_rfss_status_broadcast(bits),
        TsbkOpcode::AdjacentStatusBroadcast => parse_adjacent_status_broadcast(bits),
        TsbkOpcode::Unknown(v) => TsbkFields::Unknown {
            opcode_value: v,
            raw_payload: extract_payload_bytes(bits),
        },
        other => TsbkFields::Unimplemented { opcode: other, raw_payload: extract_payload_bytes(bits) },
    }
}

/// Extract the 8-byte payload (TSBK bytes 2-9) as a raw byte array.
fn extract_payload_bytes(bits: &[u8]) -> (r: [u8; 8])
    requires
        bits@.len() == 12,
    ensures
        r@ == bits@.subrange(2, 10),
{
    let mut payload = [0u8; 8];
    let mut i: usize = 0;
    while i < 8
        invariant
            i <= 8,
            bits@.len() == 12,
            forall|j: int| 0 <= j < i ==> #[trigger] payload@[j] == bits@[2 + j],
        decreases 8 - i,
    {
        let start = 16 + i * 8;
        proof {
            lemma_byte_field(bits@, (i + 2) as nat);
        }
        payload[i] = extract_u8(bits, start, start + 8);
        i = i + 1;
    }
    assert(payload@ =~= bits@.subrange(2, 10));
    payload
}

/// The 8 bits of byte `b` are that byte.
proof fn lemma_byte_field(d: Seq<u8>, b: nat)
    requires
        b < d.len(),
    ensures
        bits_value(d, 8 * b, 8 * b + 8) == d[b as int],
{
    lemma_byte_prefix(d, b, 8);
    vstd::arithmetic::power2::lemma2_to64();
    vstd::arithmetic::div_mod::lemma_div_basics(d[b as int] as int);
}

/// The first `k` bits of byte `b` are its top `k` bits.
proof fn lemma_byte_prefix(d: Seq<u8>, b: nat, k: nat)
    requires
        b < d.len(),
        k <= 8,
    ensures
        bits_value(d, 8 * b, 8 * b + k) == (d[b as int] as nat) / pow2((8 - k) as nat),
    decreases k,
{
    let x = d[b as int] as nat;
    vstd::arithmetic::power2::lemma2_to64();
    if k == 0 {
        vstd::arithmetic::div_mod::lemma_basic_div(x as int, 256);
    } else {
        lemma_byte_prefix(d, b, (k - 1) as nat);
        let e = (8 - k) as nat;
        assert((8 * b + k - 1) / 8 == b && (8 * b + k - 1) % 8 == k - 1) by (nonlinear_arith)
            requires
                1 <= k <= 8,
        ;
        assert(bits_value(d, 8 * b, 8 * b + k) == bits_value(d, 8 * b, (8 * b + k - 1) as nat) * 2 + (x / pow2(e)) % 2);
        vstd::arithmetic::power2::lemma_pow2_adds(e, 1);
        vstd::arithmetic::power2::lemma_pow2_pos(e);
        vstd::arithmetic::div_mod::lemma_div_denominator(x as int, pow2(e) as int, 2);
        vstd::arithmetic::div_mod::lemma_fundamental_div_mod((x / pow2(e)) as int, 2);
    }
}

// ---------------------------------------------------------------------------
// Per-opcode parsers
// ---------------------------------------------------------------------------

/// Parse Group Voice Channel Grant (opcode 0x00).
///
/// With manufacturer ID 0x90 (Motorola), this becomes a Group Regroup Command
/// with a completely different field layout.
///
/// Standard layout (MFRID 0x00):
/// - Bits 79-72 (index 16..24): Service Options (8 bits)
/// - Bits 71-56 (index 24..40): Channel ID (16 bits)
/// - Bits 55-40 (index 40..56): Talkgroup (16 bits)
/// - Bits 39-16 (index 56..80): Source Unit ID (24 bits)
///
/// Reference: TIA-102.AABF-A Section 7.2.1
fn parse_group_voice_channel_grant(bits: &[u8], mfrid: ManufacturerId) -> (r: TsbkFields)
    requires
        bits@.len() == 12,
    ensures
        fields_decoded(bits@, TsbkOpcode::GroupVoiceChannelGrant, mfrid.0, r),
{
    if mfrid.0 == MFRID_MOTOROLA {
        return TsbkFields::MotorolaGroupRegroupCommand {
            supergroup: TalkgroupId::new(extract_u16(bits, 16, 32)),
            group_a: TalkgroupId::new(extract_u16(bits, 32, 48)),
            group_b: TalkgroupId::new(extract_u16(bits, 48, 64)),
            group_c: TalkgroupId::new(extract_u16(bits, 64, 80)),
        };
    }
    TsbkFields::GroupVoiceChannelGrant {
        service_options: ServiceOptions::new(extract_u8(bits, 16, 24)),
        channel: ChannelId(extract_u16(bits, 24, 40)),
        talkgroup: TalkgroupId::new(extract_u16(bits, 40, 56)),
        source: UnitId(extract_u32(bits, 56, 80)),
    }
}

/// Parse Group Voice Channel Grant Update (opcode 0x02).
///
/// - Bits 79-64 (index 16..32): Channel A (16 bits)
/// - Bits 63-48 (index 32..48): Talkgroup A (16 bits)
/// - Bits 47-32 (index 48..64): Channel B (16 bits)
/// - Bits 31-16 (index 64..80): Talkgroup B (16 bits)
///
/// Reference: TIA-102.AABF-A Section 7.2.2
fn parse_group_voice_channel_grant_update(bits: &[u8]) -> (r: TsbkFields)
    requires
        bits@.len() == 12,
    ensures
        fields_decoded(bits@, TsbkOpcode::GroupVoiceChannelGrantUpdate, 0, r),
{
    TsbkFields::GroupVoiceChannelGrantUpdate {
        channel_a: ChannelId(extract_u16(bits, 16, 32)),
        talkgroup_a: TalkgroupId::new(extract_u16(bits, 32, 48)),
        channel_b: ChannelId(extract_u16(bits, 48, 64)),
        talkgroup_b: TalkgroupId::new(extract_u16(bits, 64, 80)),
    }
}

/// Parse Group Voice Channel Grant Update - Explicit (opcode 0x03).
///
/// Same field layout as the standard update.
///
/// Reference: TIA-102.AABF-A Section 7.2.3
fn parse_group_voice_channel_grant_update_explicit(bits: &[u8]) -> (r: TsbkFields)
    requires
        bits@.len() == 12,
    ensures
        fields_decoded(bits@, TsbkOpcode::GroupVoiceChannelGrantUpdateExplicit, 0, r),
{
    TsbkFields::GroupVoiceChannelGrantUpdateExplicit {
        channel_a: ChannelId(extract_u16(bits, 16, 32)),
        talkgroup_a: TalkgroupId::new(extract_u16(bits, 32, 48)),
        channel_b: ChannelId(extract_u16(bits, 48, 64)),
        talkgroup_b: TalkgroupId::new(extract_u16(bits, 64, 80)),
    }
}

/// Parse Unit to Unit Voice Channel Grant (opcode 0x04).
///
/// - Bits 71-56 (index 24..40): Channel ID (16 bits)
/// - Bits 55-32 (index 40..64): Target Unit ID (24 bits)
/// - Bits 39-16 (index 56..80): Source Unit ID (24 bits)
///
/// Reference: TIA-102.AABF-A Section 7.2.4
fn parse_unit_to_unit_voice_channel_grant(bits: &[u8]) -> (r: TsbkFields)
    requires
        bits@.len() == 12,
    ensures
        fields_decoded(bits@, TsbkOpcode::UnitToUnitVoiceChannelGrant, 0, r),
{
    TsbkFields::UnitToUnitVoiceChannelGrant {
        channel: ChannelId(extract_u16(bits, 24, 40)),
        target: UnitId(extract_u32(bits, 40, 64)),
        source: UnitId(extract_u32(bits, 56, 80)),
    }
}

/// Parse Emergency Alarm (opcode 0x09).
///
/// - Bits 55-32 (index 40..64): Source Unit ID (24 bits)
/// - Bits 39-24 (index 56..72): Talkgroup (16 bits)
///
/// Reference: TIA-102.AABF-A Section 7.2.9
fn parse_emergency_alarm(bits: &[u8]) -> (r: TsbkFields)
    requires
        bits@.len() == 12,
    ensures
        fields_decoded(bits@, TsbkOpcode::EmergencyAlarm, 0, r),
{
    TsbkFields::EmergencyAlarm {
        source: UnitId(extract_u32(bits, 40, 64)),
        talkgroup: TalkgroupId::new(extract_u16(bits, 56, 72)),
    }
}

/// Parse Acknowledge Response (opcode 0x10).
///
/// - Bits 55-32 (index 40..64): Target Unit ID (24 bits)
/// - Bits 39-16 (index 56..80): Source Unit ID (24 bits)
///
/// Reference: TIA-102.AABF-A Section 7.2.10
fn parse_acknowledge_response(bits: &[u8]) -> (r: TsbkFields)
    requires
        bits@.len() == 12,
    ensures
        fields_decoded(bits@, TsbkOpcode::AcknowledgeResponse, 0, r),
{
    TsbkFields::AcknowledgeResponse {
        target: UnitId(extract_u32(bits, 40, 64)),
        source: UnitId(extract_u32(bits, 56, 80)),
    }
}

/// Parse Deny Response (opcode 0x16).
///
/// - Bits 55-40 (index 40..56): Talkgroup (16 bits)
/// - Bits 39-16 (index 56..80): Source Unit ID (24 bits)
///
/// Reference: TIA-102.AABF-A Section 7.2.16
fn parse_deny_response(bits: &[u8]) -> (r: TsbkFields)
    requires
        bits@.len() == 12,
    ensures
        fields_decoded(bits@, TsbkOpcode::DenyResponse, 0, r),
{
    TsbkFields::DenyResponse {
        talkgroup: TalkgroupId::new(extract_u16(bits, 40, 56)),
        source: UnitId(extract_u32(bits, 56, 80)),
    }
}

/// Parse Group Affiliation Response (opcode 0x28).
///
/// - Bits 55-40 (index 40..56): Talkgroup (16 bits)
/// - Bits 39-16 (index 56..80): Source Unit ID (24 bits)
///
/// Reference: TIA-102.AABF-A Section 7.2.28
fn parse_group_affiliation_response(bits: &[u8]) -> (r: TsbkFields)
    requires
        bits@.len() == 12,
    ensures
        fields_decoded(bits@, TsbkOpcode::GroupAffiliationResponse, 0, r),
{
    TsbkFields::GroupAffiliationResponse {
        talkgroup: TalkgroupId::new(extract_u16(bits, 40, 56)),
        source: UnitId(extract_u32(bits, 56, 80)),
    }
}

/// Parse Unit Registration Response (opcode 0x2C).
///
/// - Bits 55-32 (index 40..64): Source Unit ID (24 bits)
/// - Bits 39-28 (index 56..68): System ID (12 bits)
///
/// Reference: TIA-102.AABF-A Section 7.2.2C
fn parse_unit_registration_response(bits: &[u8]) -> (r: TsbkFields)
    requires
        bits@.len() == 12,
    ensures
        fields_decoded(bits@, TsbkOpcode::UnitRegistrationResponse, 0, r),
{
    let system_id = extract_u16(bits, 56, 68);
    proof {
        lemma_field_fits(bits@, 56, 68);
    }
    TsbkFields::UnitRegistrationResponse {
        source: UnitId(extract_u32(bits, 40, 64)),
        system_id: SystemId::new(system_id),
    }
}

/// A field of fewer than 16 bits is unchanged by the masks of the 12-bit
/// and 20-bit identifiers.
proof fn lemma_field_fits(d: Seq<u8>, start: nat, end: nat)
    requires
        start <= end,
    ensures
        end - start <= 12 ==> field(d, start, end) < 4096,
        end - start <= 20 ==> field(d, start, end) < 0x10_0000,
        end - start <= 14 ==> field(d, start, end) < 16384,
        end - start <= 10 ==> field(d, start, end) < 1024,
        end - start <= 9 ==> field(d, start, end) < 512,
{
    lemma_bits_value_bound(d, start, end);
    vstd::arithmetic::power2::lemma2_to64();
    let w = (end - start) as nat;
    if w < 20 {
        vstd::arithmetic::power2::lemma_pow2_strictly_increases(w, 20);
    }
    if w < 14 {
        vstd::arithmetic::power2::lemma_pow2_strictly_increases(w, 14);
    }
    if w < 12 {
        vstd::arithmetic::power2::lemma_pow2_strictly_increases(w, 12);
    }
    if w < 10 {
        vstd::arithmetic::power2::lemma_pow2_strictly_increases(w, 10);
    }
    if w < 9 {
        vstd::arithmetic::power2::lemma_pow2_strictly_increases(w, 9);
    }
}

/// Parse Channel Identifier Update VHF/UHF (opcode 0x34).
///
/// - Bits 79-76 (index 16..20): Identifier (4 bits)
/// - Bits 75-72 (index 20..24): Bandwidth VU (4 bits)
/// - Bits 71-58 (index 24..38): Transmit Offset raw (14 bits)
/// - Bits 57-48 (index 38..48): Channel Spacing multiplier (10 bits)
/// - Bits 47-16 (index 48..80): Base Frequency raw (32 bits)
///
/// Transmit offset sign: bit 13 (MSB of 14-bit field). 0 = negative, 1 = positive.
/// Channel spacing in Hz = raw * 125.
/// Transmit offset in Hz = signed_magnitude * spacing.
/// Base frequency in Hz = raw * 5.
///
/// Reference: TIA-102.AABF-A Section 7.2.34
fn parse_iden_up_vu(bits: &[u8]) -> (r: TsbkFields)
    requires
        bits@.len() == 12,
    ensures
        fields_decoded(bits@, TsbkOpcode::ChannelIdentifierUpdateVu, 0, r),
{
    let ident = extract_u8(bits, 16, 20);
    let bwvu = extract_u8(bits, 20, 24);
    let toff_raw = extract_u16(bits, 24, 38);
    let spac_raw = extract_u16(bits, 38, 48);
    let freq_raw = extract_u32(bits, 48, 80);
    proof {
        lemma_field_fits(bits@, 38, 48);
        lemma_offset_fits(toff_raw, spac_raw);
    }

    let (channel_spacing, transmit_offset, base_frequency) = decode_iden_up_vu_params(
        toff_raw,
        spac_raw,
        freq_raw,
    );

    TsbkFields::ChannelIdentifierUpdateVu {
        identifier: ChannelIdentifier(ident),
        bandwidth_vu: bwvu,
        transmit_offset,
        channel_spacing,
        base_frequency,
    }
}

/// Parse Channel Identifier Update TDMA (opcode 0x33).
///
/// Same field layout as IDEN_UP_VU (0x34).
///
/// Reference: TIA-102.AABF-A Section 7.2.33
fn parse_iden_up_tdma(bits: &[u8]) -> (r: TsbkFields)
    requires
        bits@.len() == 12,
    ensures
        fields_decoded(bits@, TsbkOpcode::ChannelIdentifierUpdateTdma, 0, r),
{
    let ident = extract_u8(bits, 16, 20);
    let bwvu = extract_u8(bits, 20, 24);
    let toff_raw = extract_u16(bits, 24, 38);
    let spac_raw = extract_u16(bits, 38, 48);
    let freq_raw = extract_u32(bits, 48, 80);
    proof {
        lemma_field_fits(bits@, 38, 48);
        lemma_offset_fits(toff_raw, spac_raw);
    }

    let (channel_spacing, transmit_offset, base_frequency) = decode_iden_up_vu_params(
        toff_raw,
        spac_raw,
        freq_raw,
    );

    TsbkFields::ChannelIdentifierUpdateTdma {
        identifier: ChannelIdentifier(ident),
        bandwidth_vu: bwvu,
        transmit_offset,
        channel_spacing,
        base_frequency,
    }
}

/// A 10-bit spacing times any 13-bit offset magnitude, in units of 125 Hz,
/// fits an `i32`.
proof fn lemma_offset_fits(toff_raw: u16, spac_raw: u16)
    requires
        spac_raw < 1024,
    ensures
        (toff_raw % 8192) * spac_raw * 125 <= 0x7FFF_FFFF,
{
    let m = toff_raw % 8192;
    assert(m * spac_raw * 125 <= 8191 * 1023 * 125) by (nonlinear_arith)
        requires
            m <= 8191,
            spac_raw <= 1023,
    ;
}

/// Decode frequency parameters shared by IDEN_UP_VU and IDEN_UP_TDMA.
///
/// Returns (channel_spacing_hz, transmit_offset_hz, base_frequency_hz).
fn decode_iden_up_vu_params(toff_raw: u16, spac_raw: u16, freq_raw: u32) -> (r: (u32, i32, u64))
    requires
        (toff_raw % 8192) * spac_raw * 125 <= 0x7FFF_FFFF,
    ensures
        (r.0 as int, r.1 as int, r.2 as int) == iden_vu_params(toff_raw as nat, spac_raw as nat, freq_raw as nat),
{
    let toff_sign = toff_raw / 8192 % 2;
    let toff_magnitude = (toff_raw % 8192) as i32;
    let toff = if toff_sign == 0 {
        -toff_magnitude
    } else {
        toff_magnitude
    };
    proof {
        assert(toff_magnitude * spac_raw <= toff_magnitude * spac_raw * 125) by (nonlinear_arith)
            requires
                toff_magnitude >= 0,
                spac_raw >= 0,
        ;
        assert(-(toff_magnitude * spac_raw * 125) == toff * spac_raw * 125 || toff_magnitude * spac_raw * 125
            == toff * spac_raw * 125) by (nonlinear_arith)
            requires
                toff == toff_magnitude || toff == -toff_magnitude,
        ;
        assert(toff * spac_raw == -(toff_magnitude * spac_raw) || toff * spac_raw == toff_magnitude * spac_raw)
            by (nonlinear_arith)
            requires
                toff == toff_magnitude || toff == -toff_magnitude,
        ;
    }

    let channel_spacing = spac_raw as u32 * 125;
    let transmit_offset = toff * spac_raw as i32 * 125;
    let base_frequency = freq_raw as u64 * 5;

    (channel_spacing, transmit_offset, base_frequency)
}

/// Parse Channel Identifier Update - Standard (opcode 0x3D).
///
/// - Bits 79-76 (index 16..20): Identifier (4 bits)
/// - Bits 75-67 (index 20..29): Bandwidth raw (9 bits)
/// - Bits 66-58 (index 29..38): Transmit Offset raw (9 bits)
/// - Bits 57-48 (index 38..48): Channel Spacing multiplier (10 bits)
/// - Bits 47-16 (index 48..80): Base Frequency raw (32 bits)
///
/// Transmit offset sign: bit 8 (MSB of 9-bit field). 0 = negative, 1 = positive.
/// Channel spacing in Hz = raw * 125.
/// Transmit offset in Hz = signed_magnitude * 250000.
/// Base frequency in Hz = raw * 5.
///
/// Reference: TIA-102.AABF-A Section 7.2.3D
fn parse_iden_up_standard(bits: &[u8]) -> (r: TsbkFields)
    requires
        bits@.len() == 12,
    ensures
        fields_decoded(bits@, TsbkOpcode::ChannelIdentifierUpdateStandard, 0, r),
{
    let ident = extract_u8(bits, 16, 20);
    let bw_raw = extract_u16(bits, 20, 29);
    let toff_raw = extract_u16(bits, 29, 38);
    let spac_raw = extract_u16(bits, 38, 48);
    let freq_raw = extract_u32(bits, 48, 80);
    proof {
        lemma_field_fits(bits@, 29, 38);
        lemma_field_fits(bits@, 38, 48);
    }

    let toff_sign = toff_raw / 256 % 2;
    let toff_magnitude = (toff_raw % 256) as i32;
    let toff = if toff_sign == 0 {
        -toff_magnitude
    } else {
        toff_magnitude
    };

    let channel_spacing = spac_raw as u32 * 125;
    let transmit_offset = toff * 250_000;
    let base_frequency = freq_raw as u64 * 5;

    TsbkFields::ChannelIdentifierUpdateStandard {
        identifier: ChannelIdentifier(ident),
        bandwidth: bw_raw,
        transmit_offset,
        channel_spacing,
        base_frequency,
    }
}

/// Parse Network Status Broadcast (opcode 0x39).
///
/// - Bits 71-52 (index 24..44): WACN (20 bits)
/// - Bits 51-40 (index 44..56): System ID (12 bits)
/// - Bits 39-24 (index 56..72): Channel ID (16 bits)
///
/// Reference: TIA-102.AABF-A Section 7.2.39
fn parse_network_status_broadcast(bits: &[u8]) -> (r: TsbkFields)
    requires
        bits@.len() == 12,
    ensures
        fields_decoded(bits@, TsbkOpcode::NetworkStatusBroadcast, 0, r),
{
    proof {
        lemma_field_fits(bits@, 24, 44);
        lemma_field_fits(bits@, 44, 56);
    }
    TsbkFields::NetworkStatusBroadcast {
        wacn: Wacn::new(extract_u32(bits, 24, 44)),
        system_id: SystemId::new(extract_u16(bits, 44, 56)),
        channel: ChannelId(extract_u16(bits, 56, 72)),
    }
}

/// Parse Secondary Control Channel Broadcast (opcode 0x3B).
///
/// Same field layout as Network Status Broadcast.
///
/// Reference: TIA-102.AABF-A Section 7.2.3B
fn parse_secondary_control_channel_broadcast(bits: &[u8]) -> (r: TsbkFields)
    requires
        bits@.len() == 12,
    ensures
        fields_decoded(bits@, TsbkOpcode::SecondaryControlChannelBroadcast, 0, r),
{
    proof {
        lemma_field_fits(bits@, 24, 44);
        lemma_field_fits(bits@, 44, 56);
    }
    TsbkFields::SecondaryControlChannelBroadcast {
        wacn: Wacn::new(extract_u32(bits, 24, 44)),
        system_id: SystemId::new(extract_u16(bits, 44, 56)),
        channel: ChannelId(extract_u16(bits, 56, 72)),
    }
}

/// Parse RFSS Status Broadcast (opcode 0x3A).
///
/// - Bits 67-56 (index 28..40): System ID (12 bits)
/// - Bits 55-48 (index 40..48): RFSS ID (8 bits)
/// - Bits 47-40 (index 48..56): Site ID (8 bits)
/// - Bits 39-24 (index 56..72): Channel ID (16 bits)
///
/// Reference: TIA-102.AABF-A Section 7.2.3A
fn parse_rfss_status_broadcast(bits: &[u8]) -> (r: TsbkFields)
    requires
        bits@.len() == 12,
    ensures
        fields_decoded(bits@, TsbkOpcode::RfssStatusBroadcast, 0, r),
{
    proof {
        lemma_field_fits(bits@, 28, 40);
    }
    TsbkFields::RfssStatusBroadcast {
        system_id: SystemId::new(extract_u16(bits, 28, 40)),
        rfss: RfssId::new(extract_u8(bits, 40, 48)),
        site: SiteId::new(extract_u8(bits, 48, 56)),
        channel: ChannelId(extract_u16(bits, 56, 72)),
    }
}

/// Parse Adjacent Status Broadcast (opcode 0x3C).
///
/// Same field layout as RFSS Status Broadcast.
///
/// Reference: TIA-102.AABF-A Section 7.2.3C
fn parse_adjacent_status_broadcast(bits: &[u8]) -> (r: TsbkFields)
    requires
        bits@.len() == 12,
    ensures
        fields_decoded(bits@, TsbkOpcode::AdjacentStatusBroadcast, 0, r),
{
    proof {
        lemma_field_fits(bits@, 28, 40);
    }
    TsbkFields::AdjacentStatusBroadcast {
        system_id: SystemId::new(extract_u16(bits, 28, 40)),
        rfss: RfssId::new(extract_u8(bits, 40, 48)),
        site: SiteId::new(extract_u8(bits, 48, 56)),
        channel: ChannelId(extract_u16(bits, 56, 72)),
    }
}

} // verus!

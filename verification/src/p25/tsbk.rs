//! Trunking Signaling Block (TSBK) packet parser.
//!
//! Parses decoded TSBK payloads (12 bytes) into structured fields based
//! on the opcode. Handles CRC-16 verification and opcode dispatch.

use vstd::prelude::*;
use crate::p25::crc;
use crate::p25::crc::spec_crc16;
use crate::p25::error::P25Error;
use crate::p25::types::{
    ChannelNumber, Dibit, RfssId, SiteId, SourceId, SystemId, TalkgroupId, Wacn,
};

pub mod fields;
pub mod opcode;
pub mod parser;

verus! {

broadcast use crate::p25::types::lemma_dibit_bound;

/// TSBK opcode identifying the message type.
#[derive(Debug, Clone, Copy, PartialEq, Eq)]
pub enum TsbkOpcode {
    /// Group voice channel grant (0x00).
    GroupVoiceChannelGrant,
    /// Group voice channel grant update (0x02).
    GroupVoiceChannelGrantUpdate,
    /// Identifier update (0x20).
    IdentifierUpdate,
    /// Identifier update VHF/UHF (0x34).
    IdentifierUpdateVu,
    /// Network status broadcast (0x39).
    NetworkStatusBroadcast,
    /// RFSS status broadcast (0x3A).
    RfssStatusBroadcast,
    /// Network status broadcast (alternate) (0x3B).
    NetworkStatusBroadcastAlt,
    /// Adjacent site status broadcast (0x3C).
    AdjacentStatusBroadcast,
    /// Channel parameters update (0x3D).
    ChannelParametersUpdate,
    /// Unknown opcode.
    Unknown(u8),
}

/// The opcode named by the low six bits of `bits`.
pub open spec fn opcode_of(bits: u8) -> TsbkOpcode {
    let v = bits % 64;
    if v == 0x00 {
        TsbkOpcode::GroupVoiceChannelGrant
    } else if v == 0x02 {
        TsbkOpcode::GroupVoiceChannelGrantUpdate
    } else if v == 0x20 {
        TsbkOpcode::IdentifierUpdate
    } else if v == 0x34 {
        TsbkOpcode::IdentifierUpdateVu
    } else if v == 0x39 {
        TsbkOpcode::NetworkStatusBroadcast
    } else if v == 0x3A {
        TsbkOpcode::RfssStatusBroadcast
    } else if v == 0x3B {
        TsbkOpcode::NetworkStatusBroadcastAlt
    } else if v == 0x3C {
        TsbkOpcode::AdjacentStatusBroadcast
    } else if v == 0x3D {
        TsbkOpcode::ChannelParametersUpdate
    } else {
        TsbkOpcode::Unknown(v)
    }
}

/// The raw 6-bit value of an opcode.
pub open spec fn opcode_bits(op: TsbkOpcode) -> u8 {
    match op {
        TsbkOpcode::GroupVoiceChannelGrant => 0x00,
        TsbkOpcode::GroupVoiceChannelGrantUpdate => 0x02,
        TsbkOpcode::IdentifierUpdate => 0x20,
        TsbkOpcode::IdentifierUpdateVu => 0x34,
        TsbkOpcode::NetworkStatusBroadcast => 0x39,
        TsbkOpcode::RfssStatusBroadcast => 0x3A,
        TsbkOpcode::NetworkStatusBroadcastAlt => 0x3B,
        TsbkOpcode::AdjacentStatusBroadcast => 0x3C,
        TsbkOpcode::ChannelParametersUpdate => 0x3D,
        TsbkOpcode::Unknown(v) => v,
    }
}

/// The name of an opcode in output.
pub open spec fn opcode_name(op: TsbkOpcode) -> Seq<char> {
    match op {
        TsbkOpcode::GroupVoiceChannelGrant => "GRP_V_CH_GRANT"@,
        TsbkOpcode::GroupVoiceChannelGrantUpdate => "GRP_V_CH_GRANT_UPDT"@,
        TsbkOpcode::IdentifierUpdate => "IDENT_UP"@,
        TsbkOpcode::IdentifierUpdateVu => "IDEN_UP_VU"@,
        TsbkOpcode::NetworkStatusBroadcast => "NET_STS_BCST"@,
        TsbkOpcode::RfssStatusBroadcast => "RFSS_STS_BCST"@,
        TsbkOpcode::NetworkStatusBroadcastAlt => "NET_STS_BCST"@,
        TsbkOpcode::AdjacentStatusBroadcast => "ADJ_STS_BCST"@,
        TsbkOpcode::ChannelParametersUpdate => "IDENT_UP"@,
        TsbkOpcode::Unknown(_) => "UNKNOWN"@,
    }
}

impl TsbkOpcode {
    /// Parse an opcode from the 6-bit value in byte 0 of a TSBK.
    pub fn from_bits(bits: u8) -> (r: Self)
        ensures
            r == opcode_of(bits),
    {
        proof {
            crate::p25::bitwise::lemma_mask_u8(bits);
        }
        match bits & 0x3F {
            0x00 => Self::GroupVoiceChannelGrant,
            0x02 => Self::GroupVoiceChannelGrantUpdate,
            0x20 => Self::IdentifierUpdate,
            0x34 => Self::IdentifierUpdateVu,
            0x39 => Self::NetworkStatusBroadcast,
            0x3A => Self::RfssStatusBroadcast,
            0x3B => Self::NetworkStatusBroadcastAlt,
            0x3C => Self::AdjacentStatusBroadcast,
            0x3D => Self::ChannelParametersUpdate,
            other => Self::Unknown(other),
        }
    }

    /// Return the opcode name as a string for JSON output.
    pub fn name(&self) -> (r: &'static str)
        ensures
            r@ == opcode_name(*self),
    {
        match self {
            Self::GroupVoiceChannelGrant => "GRP_V_CH_GRANT",
            Self::GroupVoiceChannelGrantUpdate => "GRP_V_CH_GRANT_UPDT",
            Self::IdentifierUpdate => "IDENT_UP",
            Self::IdentifierUpdateVu => "IDEN_UP_VU",
            Self::NetworkStatusBroadcast => "NET_STS_BCST",
            Self::RfssStatusBroadcast => "RFSS_STS_BCST",
            Self::NetworkStatusBroadcastAlt => "NET_STS_BCST",
            Self::AdjacentStatusBroadcast => "ADJ_STS_BCST",
            Self::ChannelParametersUpdate => "IDENT_UP",
            Self::Unknown(_) => "UNKNOWN",
        }
    }

    /// Return the raw 6-bit opcode value.
    pub fn raw(&self) -> (r: u8)
        ensures
            r == opcode_bits(*self),
    {
        match self {
            Self::GroupVoiceChannelGrant => 0x00,
            Self::GroupVoiceChannelGrantUpdate => 0x02,
            Self::IdentifierUpdate => 0x20,
            Self::IdentifierUpdateVu => 0x34,
            Self::NetworkStatusBroadcast => 0x39,
            Self::RfssStatusBroadcast => 0x3A,
            Self::NetworkStatusBroadcastAlt => 0x3B,
            Self::AdjacentStatusBroadcast => 0x3C,
            Self::ChannelParametersUpdate => 0x3D,
            Self::Unknown(v) => *v,
        }
    }
}

/// Every 6-bit value names an opcode whose raw value is that value.
pub proof fn lemma_opcode_roundtrip(bits: u8)
    requires
        bits < 64,
    ensures
        opcode_bits(opcode_of(bits)) == bits,
{
}

/// Common TSBK header fields extracted from the first two bytes.
#[derive(Debug, Clone, Copy)]
pub struct TsbkHeader {
    /// Whether this is the last TSBK in the TSDU.
    pub last_block: bool,
    /// Whether the payload is encrypted.
    pub protected: bool,
    /// Message type.
    pub opcode: TsbkOpcode,
    /// Manufacturer ID (0x00 = standard).
    pub manufacturer_id: u8,
}

/// Parsed TSBK message with opcode-specific payload.
#[derive(Debug, Clone)]
pub struct Tsbk {
    /// Common header fields.
    pub header: TsbkHeader,
    /// Opcode-specific parsed payload.
    pub payload: TsbkPayload,
}

/// Opcode-specific TSBK payload data.
#[derive(Debug, Clone)]
pub enum TsbkPayload {
    /// Group voice channel grant.
    GroupVoiceChannelGrant {
        /// Channel to tune to.
        channel: ChannelNumber,
        /// Talkgroup for the conversation.
        talkgroup: TalkgroupId,
        /// Unit that initiated the conversation.
        source: SourceId,
    },
    /// Group voice channel grant update (two channel/talkgroup pairs).
    GroupVoiceChannelGrantUpdate {
        /// First channel.
        channel_a: ChannelNumber,
        /// First talkgroup.
        talkgroup_a: TalkgroupId,
        /// Second channel.
        channel_b: ChannelNumber,
        /// Second talkgroup.
        talkgroup_b: TalkgroupId,
    },
    /// Identifier table update.
    IdentifierUpdate {
        /// 4-bit identifier.
        identifier: u8,
        /// Channel bandwidth in hertz.
        bandwidth: u32,
        /// Transmit offset in hertz (signed).
        transmit_offset: i64,
        /// Channel spacing in hertz.
        channel_spacing: u32,
        /// Base frequency in hertz.
        base_frequency: u64,
    },
    /// Network status broadcast.
    NetworkStatusBroadcast {
        /// Wide Area Communication Network identifier.
        wacn: Wacn,
        /// System identifier.
        system_id: SystemId,
        /// Control channel.
        channel: ChannelNumber,
    },
    /// RFSS status broadcast.
    RfssStatusBroadcast {
        /// System identifier.
        system_id: SystemId,
        /// RF subsystem identifier.
        rfss_id: RfssId,
        /// Site identifier.
        site_id: SiteId,
        /// Control channel.
        channel: ChannelNumber,
    },
    /// Adjacent site status broadcast.
    AdjacentStatusBroadcast {
        /// System identifier.
        system_id: SystemId,
        /// RF subsystem identifier.
        rfss_id: RfssId,
        /// Site identifier.
        site_id: SiteId,
        /// Control channel.
        channel: ChannelNumber,
    },
    /// Unknown or unhandled opcode (raw payload bytes).
    Unknown {
        /// Raw payload bytes (2..10).
        data: [u8; 8],
    },
}

// ---------------------------------------------------------------------------
// Field layout
// ---------------------------------------------------------------------------

/// A big-endian 16-bit field of bytes `i` and `i + 1`.
pub open spec fn be16(d: Seq<u8>, i: int) -> nat {
    d[i] as nat * 256 + d[i + 1] as nat
}

/// The big-endian 64-bit payload word of bytes 2 through 9.
pub open spec fn payload_word(d: Seq<u8>) -> nat {
    be_value(d.subrange(2, 10))
}

/// The big-endian value of a run of bytes.
pub open spec fn be_value(s: Seq<u8>) -> nat
    decreases s.len(),
{
    if s.len() == 0 {
        0
    } else {
        be_value(s.drop_last()) * 256 + s.last() as nat
    }
}

/// Bits `lo .. lo + width` of a word.
pub open spec fn bit_field(word: nat, lo: nat, width: nat) -> nat {
    (word / vstd::arithmetic::power2::pow2(lo)) % vstd::arithmetic::power2::pow2(width)
}

/// The header of a TSBK.
pub open spec fn header_matches(h: TsbkHeader, d: Seq<u8>) -> bool {
    &&& h.last_block == (d[0] >= 0x80)
    &&& h.protected == (d[0] % 0x80 >= 0x40)
    &&& h.opcode == opcode_of(d[0])
    &&& h.manufacturer_id == d[1]
}

/// The identifier update fields of a payload word: identifier, bandwidth,
/// signed transmit offset, channel spacing and base frequency.
pub open spec fn identifier_update_fields(word: nat) -> (u8, u32, i64, u32, u64) {
    let off_raw = bit_field(word, 42, 9);
    let magnitude = (off_raw % 256) * 250_000;
    (
        bit_field(word, 60, 4) as u8,
        (bit_field(word, 51, 9) * 125) as u32,
        (if off_raw < 256 { -(magnitude as int) } else { magnitude as int }) as i64,
        (bit_field(word, 32, 10) * 125) as u32,
        (bit_field(word, 0, 32) * 5) as u64,
    )
}

/// The payload fields of a TSBK, by opcode.
pub open spec fn payload_matches(p: TsbkPayload, d: Seq<u8>) -> bool {
    match opcode_of(d[0]) {
        TsbkOpcode::GroupVoiceChannelGrant => p matches TsbkPayload::GroupVoiceChannelGrant {
            channel,
            talkgroup,
            source,
        } && channel@ == be16(d, 2) && talkgroup@ == be16(d, 4) && source@ == (d[6] as nat
            * 0x1_0000 + be16(d, 7)),
        TsbkOpcode::GroupVoiceChannelGrantUpdate => p matches TsbkPayload::GroupVoiceChannelGrantUpdate {
            channel_a,
            talkgroup_a,
            channel_b,
            talkgroup_b,
        } && channel_a@ == be16(d, 2) && talkgroup_a@ == be16(d, 4) && channel_b@ == be16(d, 6)
            && talkgroup_b@ == be16(d, 8),
        TsbkOpcode::IdentifierUpdate | TsbkOpcode::ChannelParametersUpdate
        | TsbkOpcode::IdentifierUpdateVu => p matches TsbkPayload::IdentifierUpdate {
            identifier,
            bandwidth,
            transmit_offset,
            channel_spacing,
            base_frequency,
        } && (identifier, bandwidth, transmit_offset, channel_spacing, base_frequency)
            == identifier_update_fields(payload_word(d)),
        TsbkOpcode::NetworkStatusBroadcast | TsbkOpcode::NetworkStatusBroadcastAlt => p matches TsbkPayload::NetworkStatusBroadcast {
            wacn,
            system_id,
            channel,
        } && wacn@ == d[3] as nat * 4096 + d[4] as nat * 16 + d[5] as nat / 16 && system_id@ == (
        d[5] as nat % 16) * 256 + d[6] as nat && channel@ == be16(d, 7),
        TsbkOpcode::RfssStatusBroadcast => p matches TsbkPayload::RfssStatusBroadcast {
            system_id,
            rfss_id,
            site_id,
            channel,
        } && system_id@ == (d[3] as nat % 16) * 256 + d[4] as nat && rfss_id@ == d[5] && site_id@
            == d[6] && channel@ == be16(d, 7),
        TsbkOpcode::AdjacentStatusBroadcast => p matches TsbkPayload::AdjacentStatusBroadcast {
            system_id,
            rfss_id,
            site_id,
            channel,
        } && system_id@ == (d[3] as nat % 16) * 256 + d[4] as nat && rfss_id@ == d[5] && site_id@
            == d[6] && channel@ == be16(d, 7),
        TsbkOpcode::Unknown(_) => p matches TsbkPayload::Unknown { data } && data@ == d.subrange(
            2,
            10,
        ),
    }
}

/// A TSBK holds the header and payload fields of its 12 bytes.
pub open spec fn tsbk_matches(t: Tsbk, d: Seq<u8>) -> bool {
    header_matches(t.header, d) && payload_matches(t.payload, d)
}

/// The transmit offset of an identifier update is read from the 9 bits
/// 42..50 of the payload word: bit 50 gives the sign (set: a positive
/// offset, clear: a negative one) and bits 42..49 the magnitude in steps
/// of 250 kHz.
pub proof fn lemma_identifier_offset(word: nat)
    ensures
        identifier_update_fields(word).2 as int == if bit_field(word, 50, 1) == 1 {
            (bit_field(word, 42, 8) * 250_000) as int
        } else {
            -(bit_field(word, 42, 8) * 250_000)
        },
        bit_field(word, 42, 8) < 256,
{
    vstd::arithmetic::power2::lemma2_to64();
    vstd::arithmetic::power2::lemma2_to64_rest();
    let p42 = vstd::arithmetic::power2::pow2(42);
    let x = word / p42;
    vstd::arithmetic::div_mod::lemma_div_denominator(word as int, p42 as int, 256);
    assert(p42 * 256 == vstd::arithmetic::power2::pow2(50));
    vstd::arithmetic::div_mod::lemma_mod_breakdown(x as int, 256, 2);
    assert(bit_field(word, 42, 9) == x % 512);
    assert(bit_field(word, 42, 8) == x % 256);
    assert(bit_field(word, 50, 1) == (x / 256) % 2);
    let m = (x % 256) * 250_000;
    assert(m < 64_000_000) by (nonlinear_arith)
        requires
            x % 256 < 256,
            m == (x % 256) * 250_000,
    ;
    let off_raw = bit_field(word, 42, 9);
    assert(off_raw % 256 == x % 256);
    assert((off_raw < 256) == ((x / 256) % 2 == 0));
    assert((off_raw % 256) * 250_000 == m);
    let v: int = if off_raw < 256 { -(m as int) } else { m as int };
    assert(-64_000_000 < v < 64_000_000);
    assert(identifier_update_fields(word).2 == v as i64);
    assert((v as i64) as int == v);
}

/// A parsed identifier update has a positive transmit offset when the
/// sign bit (bit 50 of the payload word) is set and a negative one when it
/// is clear, of magnitude 250 kHz times bits 42..49.
pub proof fn lemma_identifier_update_offset(t: Tsbk, d: Seq<u8>)
    requires
        d.len() == 12,
        tsbk_matches(t, d),
        opcode_of(d[0]) == TsbkOpcode::IdentifierUpdate || opcode_of(d[0])
            == TsbkOpcode::ChannelParametersUpdate || opcode_of(d[0]) == TsbkOpcode::IdentifierUpdateVu,
    ensures
        t.payload matches TsbkPayload::IdentifierUpdate { transmit_offset, .. } && transmit_offset as int
            == if bit_field(payload_word(d), 50, 1) == 1 {
            (bit_field(payload_word(d), 42, 8) * 250_000) as int
        } else {
            -(bit_field(payload_word(d), 42, 8) * 250_000)
        },
{
    lemma_identifier_offset(payload_word(d));
}

/// The offset bits of an identifier update, read from the bytes: bit 50 of
/// the payload word is bit 2 of byte 3, and bits 42..49 are the low two
/// bits of byte 3 followed by the high six bits of byte 4.
proof fn lemma_offset_bytes(d: Seq<u8>)
    requires
        d.len() >= 10,
    ensures
        bit_field(payload_word(d), 50, 1) == (d[3] / 4) % 2,
        bit_field(payload_word(d), 42, 8) == (d[3] % 4) * 64 + d[4] / 4,
        bit_field(payload_word(d), 60, 4) == d[2] / 16,
        bit_field(payload_word(d), 51, 9) == (d[2] % 16) * 32 + d[3] / 8,
        bit_field(payload_word(d), 32, 10) == (d[4] % 4) * 256 + d[5],
        bit_field(payload_word(d), 0, 32) == d[6] as int * 0x100_0000 + d[7] as int * 0x1_0000 + d[8] as int
            * 0x100 + d[9] as int,
{
    vstd::arithmetic::power2::lemma2_to64();
    vstd::arithmetic::power2::lemma2_to64_rest();
    let p = d.subrange(2, 10);
    reveal_with_fuel(be_value, 9);
    assert(p.drop_last() =~= d.subrange(2, 9));
    assert(p.drop_last().drop_last() =~= d.subrange(2, 8));
    assert(d.subrange(2, 8).drop_last() =~= d.subrange(2, 7));
    assert(d.subrange(2, 7).drop_last() =~= d.subrange(2, 6));
    assert(d.subrange(2, 6).drop_last() =~= d.subrange(2, 5));
    assert(d.subrange(2, 5).drop_last() =~= d.subrange(2, 4));
    assert(d.subrange(2, 4).drop_last() =~= d.subrange(2, 3));
    assert(d.subrange(2, 3).drop_last() =~= d.subrange(2, 2));
    let low: int = d[5] as int * 0x1_0000_0000 + d[6] as int * 0x100_0000 + d[7] as int * 0x1_0000
        + d[8] as int * 0x100 + d[9] as int;
    let w = payload_word(d) as int;
    assert(w == d[2] as int * 0x100_0000_0000_0000 + d[3] as int * 0x1_0000_0000_0000 + d[4] as int
        * 0x100_0000_0000 + low);
    let q = d[4] as int / 4;
    let r = d[4] as int % 4;
    let x = d[2] as int * 0x4000 + d[3] as int * 64 + q;
    vstd::arithmetic::div_mod::lemma_fundamental_div_mod_converse(
        w,
        0x400_0000_0000,
        x,
        r * 0x100_0000_0000 + low,
    );
    let y = d[2] as int * 64 + d[3] as int / 4;
    vstd::arithmetic::div_mod::lemma_fundamental_div_mod_converse(
        w,
        0x4_0000_0000_0000,
        y,
        (d[3] as int % 4) * 0x1_0000_0000_0000 + d[4] as int * 0x100_0000_0000 + low,
    );
    vstd::arithmetic::div_mod::lemma_fundamental_div_mod_converse(
        y,
        2,
        d[2] as int * 32 + d[3] as int / 8,
        (d[3] as int / 4) % 2,
    );
    vstd::arithmetic::div_mod::lemma_fundamental_div_mod_converse(
        x,
        256,
        d[2] as int * 64 + d[3] as int / 4,
        (d[3] as int % 4) * 64 + q,
    );
    let b4 = d[4] as int * 0x100_0000_0000 + low;
    let rest56 = (d[2] as int % 16) * 0x100_0000_0000_0000 + d[3] as int * 0x1_0000_0000_0000 + b4;
    vstd::arithmetic::div_mod::lemma_fundamental_div_mod_converse(w, 0x1000_0000_0000_0000, d[2] as int / 16, rest56);
    vstd::arithmetic::div_mod::lemma_fundamental_div_mod_converse(d[2] as int / 16, 16, 0, d[2] as int / 16);
    let z = d[2] as int * 32 + d[3] as int / 8;
    vstd::arithmetic::div_mod::lemma_fundamental_div_mod_converse(
        w,
        0x8_0000_0000_0000,
        z,
        (d[3] as int % 8) * 0x1_0000_0000_0000 + b4,
    );
    vstd::arithmetic::div_mod::lemma_fundamental_div_mod_converse(
        z,
        512,
        d[2] as int / 16,
        (d[2] as int % 16) * 32 + d[3] as int / 8,
    );
    let lo32: int = d[6] as int * 0x100_0000 + d[7] as int * 0x1_0000 + d[8] as int * 0x100 + d[9] as int;
    let v = d[2] as int * 0x100_0000 + d[3] as int * 0x1_0000 + d[4] as int * 0x100 + d[5] as int;
    vstd::arithmetic::div_mod::lemma_fundamental_div_mod_converse(w, 0x1_0000_0000, v, lo32);
    vstd::arithmetic::div_mod::lemma_fundamental_div_mod_converse(
        v,
        1024,
        d[2] as int * 0x4000 + d[3] as int * 64 + d[4] as int / 4,
        (d[4] as int % 4) * 256 + d[5] as int,
    );
    vstd::arithmetic::div_mod::lemma_fundamental_div_mod_converse(w, 1, w, 0);
}

/// Every field of a parsed identifier update, read from the bytes: the
/// identifier is the high four bits of byte 2; the bandwidth (125 Hz
/// steps) the low four bits of byte 2 and the high five of byte 3; the
/// transmit offset as in `lemma_identifier_update_offset_bytes`; the
/// channel spacing (125 Hz steps) the low two bits of byte 4 and byte 5;
/// the base frequency (5 Hz steps) bytes 6 to 9, big-endian.
pub proof fn lemma_identifier_update_bytes(t: Tsbk, d: Seq<u8>)
    requires
        d.len() == 12,
        tsbk_matches(t, d),
        opcode_of(d[0]) == TsbkOpcode::IdentifierUpdate || opcode_of(d[0])
            == TsbkOpcode::ChannelParametersUpdate || opcode_of(d[0]) == TsbkOpcode::IdentifierUpdateVu,
    ensures
        t.payload matches TsbkPayload::IdentifierUpdate {
            identifier,
            bandwidth,
            transmit_offset,
            channel_spacing,
            base_frequency,
        } && identifier == d[2] / 16 && bandwidth == ((d[2] % 16) * 32 + d[3] / 8) * 125
            && channel_spacing == ((d[4] % 4) * 256 + d[5]) * 125 && base_frequency == (d[6] as int
            * 0x100_0000 + d[7] as int * 0x1_0000 + d[8] as int * 0x100 + d[9] as int) * 5
            && transmit_offset as int == if (d[3] / 4) % 2 == 1 {
            ((d[3] % 4) * 64 + d[4] / 4) * 250_000
        } else {
            -(((d[3] % 4) * 64 + d[4] / 4) * 250_000)
        },
{
    lemma_identifier_update_offset(t, d);
    lemma_offset_bytes(d);
    vstd::arithmetic::power2::lemma2_to64();
    vstd::arithmetic::power2::lemma2_to64_rest();
}

/// The transmit offset of a parsed identifier update, read from the bytes:
/// positive when bit 2 of byte 3 (the sign bit) is set and negative when
/// it is clear, of magnitude 250 kHz times the 8-bit value formed by the
/// low two bits of byte 3 and the high six bits of byte 4.
pub proof fn lemma_identifier_update_offset_bytes(t: Tsbk, d: Seq<u8>)
    requires
        d.len() == 12,
        tsbk_matches(t, d),
        opcode_of(d[0]) == TsbkOpcode::IdentifierUpdate || opcode_of(d[0])
            == TsbkOpcode::ChannelParametersUpdate || opcode_of(d[0]) == TsbkOpcode::IdentifierUpdateVu,
    ensures
        t.payload matches TsbkPayload::IdentifierUpdate { transmit_offset, .. } && transmit_offset as int
            == if (d[3] / 4) % 2 == 1 {
            ((d[3] % 4) * 64 + d[4] / 4) * 250_000
        } else {
            -(((d[3] % 4) * 64 + d[4] / 4) * 250_000)
        },
{
    lemma_identifier_update_offset(t, d);
    lemma_offset_bytes(d);
}

// ---------------------------------------------------------------------------
// Parsing
// ---------------------------------------------------------------------------

/// Read bytes `i` and `i + 1` as a big-endian 16-bit value.
fn read_be16(data: &[u8; 12], i: usize) -> (r: u16)
    requires
        i + 1 < 12,
    ensures
        r == be16(data@, i as int),
{
    data[i] as u16 * 256 + data[i + 1] as u16
}

/// Parse a 12-byte TSBK, verifying CRC and extracting fields.
pub fn parse(data: &[u8; 12]) -> (r: Result<Tsbk, P25Error>)
    ensures
        ({
            let computed = spec_crc16(data@.subrange(0, 10));
            let stored = be16(data@, 10);
            &&& computed != stored ==> r == Err::<Tsbk, P25Error>(
                P25Error::CrcMismatch { expected: stored as u16, actual: computed },
            )
            &&& computed == stored ==> (r matches Ok(t) && tsbk_matches(t, data@))
        }),
{
    let computed_crc = crc::crc16(&data[0..10]);
    let stored_crc = read_be16(data, 10);

    if computed_crc != stored_crc {
        return Err(P25Error::CrcMismatch { expected: stored_crc, actual: computed_crc });
    }

    let header = parse_header(data);
    let payload = parse_payload(&header, data);

    Ok(Tsbk { header, payload })
}

/// Parse a 12-byte TSBK without CRC verification.
///
/// Useful when CRC has already been checked or for testing.
pub fn parse_unchecked(data: &[u8; 12]) -> (r: Tsbk)
    ensures
        tsbk_matches(r, data@),
{
    let header = parse_header(data);
    let payload = parse_payload(&header, data);
    Tsbk { header, payload }
}

/// Extract header fields from the first two bytes.
fn parse_header(data: &[u8; 12]) -> (r: TsbkHeader)
    ensures
        header_matches(r, data@),
{
    let b = data[0];
    proof {
        crate::p25::bitwise::lemma_mask_u8(b);
    }
    TsbkHeader {
        last_block: b & 0x80 != 0,
        protected: b & 0x40 != 0,
        opcode: TsbkOpcode::from_bits(b & 0x3F),
        manufacturer_id: data[1],
    }
}

/// Parse opcode-specific payload fields.
fn parse_payload(header: &TsbkHeader, data: &[u8; 12]) -> (r: TsbkPayload)
    requires
        header_matches(*header, data@),
    ensures
        payload_matches(r, data@),
{
    match header.opcode {
        TsbkOpcode::GroupVoiceChannelGrant => parse_group_voice_grant(data),
        TsbkOpcode::GroupVoiceChannelGrantUpdate => parse_group_voice_grant_update(data),
        TsbkOpcode::IdentifierUpdate | TsbkOpcode::ChannelParametersUpdate => {
            parse_identifier_update(data)
        },
        TsbkOpcode::IdentifierUpdateVu => parse_identifier_update(data),
        TsbkOpcode::NetworkStatusBroadcast | TsbkOpcode::NetworkStatusBroadcastAlt => {
            parse_network_status_broadcast(data)
        },
        TsbkOpcode::RfssStatusBroadcast => parse_rfss_status_broadcast(data),
        TsbkOpcode::AdjacentStatusBroadcast => parse_adjacent_status_broadcast(data),
        TsbkOpcode::Unknown(_) => parse_unknown(data),
    }
}

/// Parse group voice channel grant (opcode 0x00).
///
/// Layout: [opts(1), ch(2), tg(2), src(3)]
fn parse_group_voice_grant(data: &[u8; 12]) -> (r: TsbkPayload)
    ensures
        r matches TsbkPayload::GroupVoiceChannelGrant { channel, talkgroup, source }
            && channel@ == be16(data@, 2) && talkgroup@ == be16(data@, 4) && source@ == (
        data@[6] as nat * 0x1_0000 + be16(data@, 7)),
{
    let src = data[6] as u32 * 0x1_0000 + data[7] as u32 * 256 + data[8] as u32;
    TsbkPayload::GroupVoiceChannelGrant {
        channel: ChannelNumber::new(read_be16(data, 2)),
        talkgroup: TalkgroupId::new(read_be16(data, 4)),
        source: SourceId::new(src),
    }
}

/// Parse group voice channel grant update (opcode 0x02).
///
/// Layout: [ch_a(2), tg_a(2), ch_b(2), tg_b(2)]
fn parse_group_voice_grant_update(data: &[u8; 12]) -> (r: TsbkPayload)
    ensures
        r matches TsbkPayload::GroupVoiceChannelGrantUpdate {
            channel_a,
            talkgroup_a,
            channel_b,
            talkgroup_b,
        } && channel_a@ == be16(data@, 2) && talkgroup_a@ == be16(data@, 4) && channel_b@ == be16(
            data@,
            6,
        ) && talkgroup_b@ == be16(data@, 8),
{
    TsbkPayload::GroupVoiceChannelGrantUpdate {
        channel_a: ChannelNumber::new(read_be16(data, 2)),
        talkgroup_a: TalkgroupId::new(read_be16(data, 4)),
        channel_b: ChannelNumber::new(read_be16(data, 6)),
        talkgroup_b: TalkgroupId::new(read_be16(data, 8)),
    }
}

/// The payload word of bytes 2 through 9, big-endian.
fn read_payload_word(data: &[u8; 12]) -> (r: u64)
    ensures
        r == payload_word(data@),
{
    let mut word: u64 = 0;
    let mut i: usize = 2;
    proof {
        vstd::arithmetic::power2::lemma2_to64();
        assert(data@.subrange(2, 2).len() == 0);
    }
    while i < 10
        invariant
            2 <= i <= 10,
            word == be_value(data@.subrange(2, i as int)),
            word < vstd::arithmetic::power2::pow2((8 * (i - 2)) as nat),
        decreases 10 - i,
    {
        proof {
            vstd::arithmetic::power2::lemma2_to64();
            vstd::arithmetic::power2::lemma2_to64_rest();
            let s = data@.subrange(2, i + 1);
            assert(s.drop_last() =~= data@.subrange(2, i as int));
            vstd::arithmetic::power2::lemma_pow2_adds((8 * (i - 2)) as nat, 8);
            if i < 9 {
                vstd::arithmetic::power2::lemma_pow2_strictly_increases((8 * (i - 2)) as nat, 56);
            }
            assert(word * 256 + data@[i as int] < vstd::arithmetic::power2::pow2((8 * (i - 1)) as nat)) by (nonlinear_arith)
                requires
                    word < vstd::arithmetic::power2::pow2((8 * (i - 2)) as nat),
                    data@[i as int] < 256,
                    vstd::arithmetic::power2::pow2((8 * (i - 1)) as nat) == vstd::arithmetic::power2::pow2(
                        (8 * (i - 2)) as nat,
                    ) * 256,
            ;
        }
        word = word * 256 + data[i] as u64;
        i += 1;
    }
    word
}

/// Parse identifier update (opcodes 0x20, 0x34, 0x3D).
///
/// Layout (bytes 2-9, 64 bits total):
///   Identifier: 4 bits
///   Bandwidth: 9 bits (x 125 Hz)
///   Transmit Offset: 9 bits (x 250 kHz, MSB=sign)
///   Channel Spacing: 10 bits (x 125 Hz)
///   Base Frequency: 32 bits (x 5 Hz)
fn parse_identifier_update(data: &[u8; 12]) -> (r: TsbkPayload)
    ensures
        r matches TsbkPayload::IdentifierUpdate {
            identifier,
            bandwidth,
            transmit_offset,
            channel_spacing,
            base_frequency,
        } && (identifier, bandwidth, transmit_offset, channel_spacing, base_frequency)
            == identifier_update_fields(payload_word(data@)),
{
    let word = read_payload_word(data);
    proof {
        vstd::arithmetic::power2::lemma2_to64();
        vstd::arithmetic::power2::lemma2_to64_rest();
    }

    let identifier = (word / 0x1000_0000_0000_0000 % 16) as u8;
    let bandwidth = (word / 0x8_0000_0000_0000 % 0x200) as u32 * 125;

    // Offset: 9 bits, MSB is sign bit, lower 8 bits are magnitude.
    // MSB=0 means negative offset, MSB=1 means positive.
    let off_raw = (word / 0x400_0000_0000 % 0x200) as u16;
    let magnitude = (off_raw % 256) as i64 * 250_000;
    let transmit_offset = if off_raw / 256 == 0 {
        -magnitude
    } else {
        magnitude
    };

    let channel_spacing = (word / 0x1_0000_0000 % 0x400) as u32 * 125;
    let base_frequency = (word % 0x1_0000_0000) * 5;

    TsbkPayload::IdentifierUpdate {
        identifier,
        bandwidth,
        transmit_offset,
        channel_spacing,
        base_frequency,
    }
}

/// Parse network status broadcast (opcodes 0x39, 0x3B).
///
/// Layout bytes 2-9: [area(1), wacn_hi(1), wacn_lo_sys_hi(1), sys_lo(1), ch(2), svc(2)]
fn parse_network_status_broadcast(data: &[u8; 12]) -> (r: TsbkPayload)
    ensures
        r matches TsbkPayload::NetworkStatusBroadcast { wacn, system_id, channel } && wacn@
            == data@[3] as nat * 4096 + data@[4] as nat * 16 + data@[5] as nat / 16 && system_id@
            == (data@[5] as nat % 16) * 256 + data@[6] as nat && channel@ == be16(data@, 7),
{
    // WACN is 20 bits: bytes 3-4 and top 4 of byte 5
    let wacn_raw = data[3] as u32 * 4096 + data[4] as u32 * 16 + (data[5] / 16) as u32;

    // System ID is 12 bits: bottom 4 of byte 5 and byte 6
    let system_id_raw = (data[5] % 16) as u16 * 256 + data[6] as u16;

    let channel = read_be16(data, 7);

    TsbkPayload::NetworkStatusBroadcast {
        wacn: Wacn::new(wacn_raw),
        system_id: SystemId::new(system_id_raw),
        channel: ChannelNumber::new(channel),
    }
}

/// Parse RFSS status broadcast (opcode 0x3A).
///
/// Layout bytes 2-9: [area(1), sys(1.5), rfss(1), site(1), ch(2), svc(1)]
fn parse_rfss_status_broadcast(data: &[u8; 12]) -> (r: TsbkPayload)
    ensures
        r matches TsbkPayload::RfssStatusBroadcast { system_id, rfss_id, site_id, channel }
            && system_id@ == (data@[3] as nat % 16) * 256 + data@[4] as nat && rfss_id@ == data@[5]
            && site_id@ == data@[6] && channel@ == be16(data@, 7),
{
    // System ID = bottom 4 of byte 3 + byte 4 = 12 bits
    let system_id_raw = (data[3] % 16) as u16 * 256 + data[4] as u16;

    TsbkPayload::RfssStatusBroadcast {
        system_id: SystemId::new(system_id_raw),
        rfss_id: RfssId::new(data[5]),
        site_id: SiteId::new(data[6]),
        channel: ChannelNumber::new(read_be16(data, 7)),
    }
}

/// Parse adjacent site status broadcast (opcode 0x3C).
///
/// Layout bytes 2-9: [area(1), sys_hi(0.5), sys_lo(1), rfss(1), site(1), ch(2), svc(1)]
fn parse_adjacent_status_broadcast(data: &[u8; 12]) -> (r: TsbkPayload)
    ensures
        r matches TsbkPayload::AdjacentStatusBroadcast { system_id, rfss_id, site_id, channel }
            && system_id@ == (data@[3] as nat % 16) * 256 + data@[4] as nat && rfss_id@ == data@[5]
            && site_id@ == data@[6] && channel@ == be16(data@, 7),
{
    let system_id_raw = (data[3] % 16) as u16 * 256 + data[4] as u16;

    TsbkPayload::AdjacentStatusBroadcast {
        system_id: SystemId::new(system_id_raw),
        rfss_id: RfssId::new(data[5]),
        site_id: SiteId::new(data[6]),
        channel: ChannelNumber::new(read_be16(data, 7)),
    }
}

/// Parse unknown or unhandled opcode.
fn parse_unknown(data: &[u8; 12]) -> (r: TsbkPayload)
    ensures
        r matches TsbkPayload::Unknown { data: d } && d@ == data@.subrange(2, 10),
{
    let payload_data: [u8; 8] = [
        data[2],
        data[3],
        data[4],
        data[5],
        data[6],
        data[7],
        data[8],
        data[9],
    ];
    assert(payload_data@ =~= data@.subrange(2, 10));
    TsbkPayload::Unknown { data: payload_data }
}

/// The byte packed from four dibits, first dibit most significant.
pub open spec fn packed_byte(d: Seq<Dibit>, i: int) -> u8 {
    (d[4 * i]@ * 64 + d[4 * i + 1]@ * 16 + d[4 * i + 2]@ * 4 + d[4 * i + 3]@) as u8
}

/// Convert 48 decoded dibits into 12 bytes.
pub fn dibits_to_bytes(dibits: &[Dibit]) -> (r: Result<[u8; 12], P25Error>)
    ensures
        dibits@.len() != 48 ==> r == Err::<[u8; 12], P25Error>(
            P25Error::PayloadTooShort { expected: 48, actual: dibits@.len() as usize },
        ),
        dibits@.len() == 48 ==> (r matches Ok(bytes) && forall|i: int|
            0 <= i < 12 ==> #[trigger] bytes@[i] == packed_byte(dibits@, i)),
{
    if dibits.len() != 48 {
        return Err(P25Error::PayloadTooShort { expected: 48, actual: dibits.len() });
    }

    let mut bytes = [0u8; 12];
    let mut i: usize = 0;
    while i < 12
        invariant
            i <= 12,
            dibits@.len() == 48,
            bytes@.len() == 12,
            forall|j: int| 0 <= j < i ==> #[trigger] bytes@[j] == packed_byte(dibits@, j),
        decreases 12 - i,
    {
        let a = dibits[4 * i].bits();
        let b = dibits[4 * i + 1].bits();
        let c = dibits[4 * i + 2].bits();
        let d = dibits[4 * i + 3].bits();
        bytes[i] = a * 64 + b * 16 + c * 4 + d;
        i += 1;
    }
    Ok(bytes)
}

} // verus!

//! Link Control fields from LDU1 voice frames and TDULC.
//!
//! Link Control (LC) carries identity and control information within voice
//! transmissions. The 9-byte LC payload appears in LDU1 frames (reassembled
//! from six "extra" pieces after Reed-Solomon correction).
//!
//! Layout (9 bytes, 72 bits):
//! - Bit 0: Protected flag (encrypted LC)
//! - Bit 1: Reserved
//! - Bits 2-7: LC Opcode (6 bits)
//! - Bytes 1-8: Opcode-specific payload

use vstd::prelude::*;
use vstd::string::StringExecFns;
use crate::p25::text::{padded_digits, push_padded, push_decimal, decimal};
use crate::p25::types::{SourceId, TalkgroupId};

verus! {

/// Number of bytes in a Link Control payload.
pub const LINK_CONTROL_BYTES: usize = 9;

/// Link Control opcode identifying the type of LC payload.
///
/// Values from TIA-102.AABF Table 3.
#[derive(Clone, Copy, Debug, PartialEq, Eq)]
pub enum LinkControlOpcode {
    /// Group Voice Channel User (0x00).
    GroupVoiceTraffic,
    /// Group Voice Channel Update (0x02).
    GroupVoiceUpdate,
    /// Unit to Unit Voice Channel User (0x03).
    UnitVoiceTraffic,
    /// Group Voice Channel Update - Explicit (0x04).
    GroupVoiceUpdateExplicit,
    /// Unit to Unit Answer Request (0x05).
    UnitCallRequest,
    /// Telephone Interconnect Voice Channel User (0x06).
    PhoneTraffic,
    /// Telephone Interconnect Answer Request (0x07).
    PhoneAlert,
    /// Call Termination / Cancellation (0x0F).
    CallTermination,
    /// Group Affiliation Query (0x10).
    GroupAffiliationQuery,
    /// Unit Registration Command (0x11).
    UnitRegistrationRequest,
    /// Unit Authentication Command (0x12).
    UnitAuthenticationRequest,
    /// Status Query (0x13).
    UnitStatusRequest,
    /// Status Update (0x14).
    UnitStatusUpdate,
    /// Message Update (0x15).
    UnitShortMessage,
    /// Call Alert (0x16).
    UnitCallAlert,
    /// Extended Function Command (0x17).
    ExtendedFunction,
    /// Channel Identifier Update (0x18).
    ChannelParamsUpdate,
    /// Channel Identifier Update - Explicit (0x19).
    ChannelParamsExplicit,
    /// System Service Broadcast (0x20).
    SystemServiceBroadcast,
    /// Secondary Control Channel Broadcast (0x21).
    AltControlChannel,
    /// Adjacent Site Status Broadcast (0x22).
    AdjacentSite,
    /// RFSS Status Broadcast (0x23).
    RfssStatusBroadcast,
    /// Network Status Broadcast (0x24).
    NetworkStatusBroadcast,
    /// Protection Parameter Broadcast (0x25).
    ProtectionParamBroadcast,
    /// Secondary Control Channel Broadcast - Explicit (0x26).
    AltControlChannelExplicit,
    /// Adjacent Site Status Broadcast - Explicit (0x27).
    AdjacentSiteExplicit,
    /// RFSS Status Broadcast - Explicit (0x28).
    RfssStatusExplicit,
    /// Network Status Broadcast - Explicit (0x29).
    NetworkStatusExplicit,
    /// Unknown or vendor-specific opcode.
    Unknown(u8),
}

/// The opcode for a 6-bit value.
pub open spec fn lc_opcode_for(value: u8) -> LinkControlOpcode {
    if false {
        LinkControlOpcode::Unknown(value)
    } else if value == 0x00 {
        LinkControlOpcode::GroupVoiceTraffic
    } else if value == 0x02 {
        LinkControlOpcode::GroupVoiceUpdate
    } else if value == 0x03 {
        LinkControlOpcode::UnitVoiceTraffic
    } else if value == 0x04 {
        LinkControlOpcode::GroupVoiceUpdateExplicit
    } else if value == 0x05 {
        LinkControlOpcode::UnitCallRequest
    } else if value == 0x06 {
        LinkControlOpcode::PhoneTraffic
    } else if value == 0x07 {
        LinkControlOpcode::PhoneAlert
    } else if value == 0x0F {
        LinkControlOpcode::CallTermination
    } else if value == 0x10 {
        LinkControlOpcode::GroupAffiliationQuery
    } else if value == 0x11 {
        LinkControlOpcode::UnitRegistrationRequest
    } else if value == 0x12 {
        LinkControlOpcode::UnitAuthenticationRequest
    } else if value == 0x13 {
        LinkControlOpcode::UnitStatusRequest
    } else if value == 0x14 {
        LinkControlOpcode::UnitStatusUpdate
    } else if value == 0x15 {
        LinkControlOpcode::UnitShortMessage
    } else if value == 0x16 {
        LinkControlOpcode::UnitCallAlert
    } else if value == 0x17 {
        LinkControlOpcode::ExtendedFunction
    } else if value == 0x18 {
        LinkControlOpcode::ChannelParamsUpdate
    } else if value == 0x19 {
        LinkControlOpcode::ChannelParamsExplicit
    } else if value == 0x20 {
        LinkControlOpcode::SystemServiceBroadcast
    } else if value == 0x21 {
        LinkControlOpcode::AltControlChannel
    } else if value == 0x22 {
        LinkControlOpcode::AdjacentSite
    } else if value == 0x23 {
        LinkControlOpcode::RfssStatusBroadcast
    } else if value == 0x24 {
        LinkControlOpcode::NetworkStatusBroadcast
    } else if value == 0x25 {
        LinkControlOpcode::ProtectionParamBroadcast
    } else if value == 0x26 {
        LinkControlOpcode::AltControlChannelExplicit
    } else if value == 0x27 {
        LinkControlOpcode::AdjacentSiteExplicit
    } else if value == 0x28 {
        LinkControlOpcode::RfssStatusExplicit
    } else if value == 0x29 {
        LinkControlOpcode::NetworkStatusExplicit
    } else {
        LinkControlOpcode::Unknown(value)
    }
}

/// The 6-bit value of an opcode.
pub open spec fn lc_opcode_value(op: LinkControlOpcode) -> u8 {
    match op {
        LinkControlOpcode::GroupVoiceTraffic => 0x00,
        LinkControlOpcode::GroupVoiceUpdate => 0x02,
        LinkControlOpcode::UnitVoiceTraffic => 0x03,
        LinkControlOpcode::GroupVoiceUpdateExplicit => 0x04,
        LinkControlOpcode::UnitCallRequest => 0x05,
        LinkControlOpcode::PhoneTraffic => 0x06,
        LinkControlOpcode::PhoneAlert => 0x07,
        LinkControlOpcode::CallTermination => 0x0F,
        LinkControlOpcode::GroupAffiliationQuery => 0x10,
        LinkControlOpcode::UnitRegistrationRequest => 0x11,
        LinkControlOpcode::UnitAuthenticationRequest => 0x12,
        LinkControlOpcode::UnitStatusRequest => 0x13,
        LinkControlOpcode::UnitStatusUpdate => 0x14,
        LinkControlOpcode::UnitShortMessage => 0x15,
        LinkControlOpcode::UnitCallAlert => 0x16,
        LinkControlOpcode::ExtendedFunction => 0x17,
        LinkControlOpcode::ChannelParamsUpdate => 0x18,
        LinkControlOpcode::ChannelParamsExplicit => 0x19,
        LinkControlOpcode::SystemServiceBroadcast => 0x20,
        LinkControlOpcode::AltControlChannel => 0x21,
        LinkControlOpcode::AdjacentSite => 0x22,
        LinkControlOpcode::RfssStatusBroadcast => 0x23,
        LinkControlOpcode::NetworkStatusBroadcast => 0x24,
        LinkControlOpcode::ProtectionParamBroadcast => 0x25,
        LinkControlOpcode::AltControlChannelExplicit => 0x26,
        LinkControlOpcode::AdjacentSiteExplicit => 0x27,
        LinkControlOpcode::RfssStatusExplicit => 0x28,
        LinkControlOpcode::NetworkStatusExplicit => 0x29,
        LinkControlOpcode::Unknown(v) => v,
    }
}

/// The display name of a known opcode.
pub open spec fn lc_opcode_name(op: LinkControlOpcode) -> Seq<char> {
    match op {
        LinkControlOpcode::GroupVoiceTraffic => "GRP_V_CH_USR"@,
        LinkControlOpcode::GroupVoiceUpdate => "GRP_V_CH_UPDT"@,
        LinkControlOpcode::UnitVoiceTraffic => "UNT_V_CH_USR"@,
        LinkControlOpcode::GroupVoiceUpdateExplicit => "GRP_V_CH_UPDT_EXP"@,
        LinkControlOpcode::UnitCallRequest => "UNT_ANS_REQ"@,
        LinkControlOpcode::PhoneTraffic => "TEL_INT_CH_USR"@,
        LinkControlOpcode::PhoneAlert => "TEL_INT_ANS_REQ"@,
        LinkControlOpcode::CallTermination => "CALL_TERM"@,
        LinkControlOpcode::GroupAffiliationQuery => "GroupAffiliationQuery"@,
        LinkControlOpcode::UnitRegistrationRequest => "UnitRegistrationRequest"@,
        LinkControlOpcode::UnitAuthenticationRequest => "UnitAuthenticationRequest"@,
        LinkControlOpcode::UnitStatusRequest => "UnitStatusRequest"@,
        LinkControlOpcode::UnitStatusUpdate => "UnitStatusUpdate"@,
        LinkControlOpcode::UnitShortMessage => "UnitShortMessage"@,
        LinkControlOpcode::UnitCallAlert => "UnitCallAlert"@,
        LinkControlOpcode::ExtendedFunction => "ExtendedFunction"@,
        LinkControlOpcode::ChannelParamsUpdate => "ChannelParamsUpdate"@,
        LinkControlOpcode::ChannelParamsExplicit => "ChannelParamsExplicit"@,
        LinkControlOpcode::SystemServiceBroadcast => "SystemServiceBroadcast"@,
        LinkControlOpcode::AltControlChannel => "AltControlChannel"@,
        LinkControlOpcode::AdjacentSite => "AdjacentSite"@,
        LinkControlOpcode::RfssStatusBroadcast => "RfssStatusBroadcast"@,
        LinkControlOpcode::NetworkStatusBroadcast => "NetworkStatusBroadcast"@,
        LinkControlOpcode::ProtectionParamBroadcast => "ProtectionParamBroadcast"@,
        LinkControlOpcode::AltControlChannelExplicit => "AltControlChannelExplicit"@,
        LinkControlOpcode::AdjacentSiteExplicit => "AdjacentSiteExplicit"@,
        LinkControlOpcode::RfssStatusExplicit => "RfssStatusExplicit"@,
        LinkControlOpcode::NetworkStatusExplicit => "NetworkStatusExplicit"@,
        LinkControlOpcode::Unknown(_) => "UNKNOWN"@,
    }
}

/// The display text of an opcode: its name, or `UNKNOWN(0x..)` with two
/// hexadecimal digits for an unknown value.
pub open spec fn lc_opcode_text(op: LinkControlOpcode) -> Seq<char> {
    match op {
        LinkControlOpcode::Unknown(b) => "UNKNOWN(0x"@ + padded_digits(b as nat, 16, 2) + ")"@,
        _ => lc_opcode_name(op),
    }
}

impl LinkControlOpcode {
    /// Parse an opcode from a 6-bit value.
    pub fn from_bits(bits: u8) -> (r: Self)
        ensures
            r == lc_opcode_for(bits % 64),
    {
        proof {
            crate::p25::bitwise::lemma_mask_u8(bits);
        }
        match bits & 0x3F {
            0x00 => Self::GroupVoiceTraffic,
            0x02 => Self::GroupVoiceUpdate,
            0x03 => Self::UnitVoiceTraffic,
            0x04 => Self::GroupVoiceUpdateExplicit,
            0x05 => Self::UnitCallRequest,
            0x06 => Self::PhoneTraffic,
            0x07 => Self::PhoneAlert,
            0x0F => Self::CallTermination,
            0x10 => Self::GroupAffiliationQuery,
            0x11 => Self::UnitRegistrationRequest,
            0x12 => Self::UnitAuthenticationRequest,
            0x13 => Self::UnitStatusRequest,
            0x14 => Self::UnitStatusUpdate,
            0x15 => Self::UnitShortMessage,
            0x16 => Self::UnitCallAlert,
            0x17 => Self::ExtendedFunction,
            0x18 => Self::ChannelParamsUpdate,
            0x19 => Self::ChannelParamsExplicit,
            0x20 => Self::SystemServiceBroadcast,
            0x21 => Self::AltControlChannel,
            0x22 => Self::AdjacentSite,
            0x23 => Self::RfssStatusBroadcast,
            0x24 => Self::NetworkStatusBroadcast,
            0x25 => Self::ProtectionParamBroadcast,
            0x26 => Self::AltControlChannelExplicit,
            0x27 => Self::AdjacentSiteExplicit,
            0x28 => Self::RfssStatusExplicit,
            0x29 => Self::NetworkStatusExplicit,
            b => Self::Unknown(b),
        }
    }

    /// The name of a known opcode (`UNKNOWN` for an unknown one).
    fn name(&self) -> (r: &'static str)
        ensures
            r@ == lc_opcode_name(*self),
    {
        match self {
            Self::GroupVoiceTraffic => "GRP_V_CH_USR",
            Self::GroupVoiceUpdate => "GRP_V_CH_UPDT",
            Self::UnitVoiceTraffic => "UNT_V_CH_USR",
            Self::GroupVoiceUpdateExplicit => "GRP_V_CH_UPDT_EXP",
            Self::UnitCallRequest => "UNT_ANS_REQ",
            Self::PhoneTraffic => "TEL_INT_CH_USR",
            Self::PhoneAlert => "TEL_INT_ANS_REQ",
            Self::CallTermination => "CALL_TERM",
            Self::GroupAffiliationQuery => "GroupAffiliationQuery",
            Self::UnitRegistrationRequest => "UnitRegistrationRequest",
            Self::UnitAuthenticationRequest => "UnitAuthenticationRequest",
            Self::UnitStatusRequest => "UnitStatusRequest",
            Self::UnitStatusUpdate => "UnitStatusUpdate",
            Self::UnitShortMessage => "UnitShortMessage",
            Self::UnitCallAlert => "UnitCallAlert",
            Self::ExtendedFunction => "ExtendedFunction",
            Self::ChannelParamsUpdate => "ChannelParamsUpdate",
            Self::ChannelParamsExplicit => "ChannelParamsExplicit",
            Self::SystemServiceBroadcast => "SystemServiceBroadcast",
            Self::AltControlChannel => "AltControlChannel",
            Self::AdjacentSite => "AdjacentSite",
            Self::RfssStatusBroadcast => "RfssStatusBroadcast",
            Self::NetworkStatusBroadcast => "NetworkStatusBroadcast",
            Self::ProtectionParamBroadcast => "ProtectionParamBroadcast",
            Self::AltControlChannelExplicit => "AltControlChannelExplicit",
            Self::AdjacentSiteExplicit => "AdjacentSiteExplicit",
            Self::RfssStatusExplicit => "RfssStatusExplicit",
            Self::NetworkStatusExplicit => "NetworkStatusExplicit",
            Self::Unknown(_) => "UNKNOWN",
        }
    }

    /// The display text of the opcode.
    pub fn to_string(&self) -> (r: String)
        ensures
            r@ == lc_opcode_text(*self),
    {
        match self {
            Self::Unknown(b) => {
                let mut s = String::from_str("UNKNOWN(0x");
                push_padded(&mut s, *b as u64, 16, 2);
                s.append(")");
                s
            },
            _ => String::from_str(self.name()),
        }
    }
}

/// Every value below 64 parses to an opcode that carries it back.
pub proof fn lemma_lc_opcode_roundtrip(value: u8)
    requires
        value < 64,
    ensures
        lc_opcode_value(lc_opcode_for(value)) == value,
{
}

/// Base Link Control decoder, common to all LC packets.
///
/// Provides access to the protected flag, opcode, and raw payload bytes.
/// Opcode-specific decoders (like `GroupVoiceTraffic`) wrap this type.
#[derive(Clone, Copy, Debug, PartialEq, Eq)]
pub struct LinkControlFields([u8; 9]);

impl View for LinkControlFields {
    type V = Seq<u8>;

    /// The nine payload bytes.
    closed spec fn view(&self) -> Seq<u8> {
        self.0@
    }
}

/// The text `true` or `false`.
pub open spec fn bool_text(b: bool) -> Seq<char> {
    if b {
        "true"@
    } else {
        "false"@
    }
}

/// The display text of a Link Control word with the given first byte.
pub open spec fn link_control_text(first: u8) -> Seq<char> {
    "opcode="@ + lc_opcode_text(lc_opcode_for(first % 64)) + ", protected="@ + bool_text(first >= 128)
}

impl LinkControlFields {
    /// Create from a 9-byte buffer.
    pub fn new(buf: [u8; 9]) -> (r: Self)
        ensures
            r@ == buf@,
    {
        Self(buf)
    }

    /// Whether the LC payload is encrypted (protected).
    pub fn protected(&self) -> (r: bool)
        ensures
            r == (self@[0] >= 128),
    {
        let b = self.0[0];
        proof {
            crate::p25::bitwise::lemma_mask_u8(b);
        }
        b >> 7 == 1
    }

    /// The LC opcode (6 bits from byte 0).
    pub fn opcode(&self) -> (r: LinkControlOpcode)
        ensures
            r == lc_opcode_for(self@[0] % 64),
    {
        let b = self.0[0];
        proof {
            crate::p25::bitwise::lemma_mask_u8(b);
        }
        LinkControlOpcode::from_bits(b & 0x3F)
    }

    /// The 8-byte opcode-specific payload (bytes 1 through 8).
    pub fn payload(&self) -> (r: &[u8])
        ensures
            r@ == self@.subrange(1, 9),
    {
        vstd::slice::slice_subrange(self.0.as_slice(), 1, 9)
    }

    /// Access the raw 9-byte buffer.
    pub fn raw(&self) -> (r: &[u8; 9])
        ensures
            r@ == self@,
    {
        &self.0
    }

    /// The display text: opcode and protected flag.
    pub fn to_string(&self) -> (r: String)
        ensures
            r@ == link_control_text(self@[0]),
    {
        let mut s = String::from_str("opcode=");
        let op = self.opcode().to_string();
        s.append(op.as_str());
        s.append(", protected=");
        if self.protected() {
            s.append("true");
        } else {
            s.append("false");
        }
        s
    }
}

/// Group Voice Channel User — identifies the unit transmitting on a
/// talkgroup traffic channel.
///
/// Layout of payload (bytes 1-8 of LC):
/// - Byte 1: Manufacturer ID (MFID)
/// - Byte 2: Service options
/// - Bytes 3-4: Reserved
/// - Bytes 4-5: Talkgroup ID (16 bits)
/// - Bytes 6-8: Source unit address (24 bits)
#[derive(Clone, Copy, Debug)]
pub struct GroupVoiceTraffic(LinkControlFields);

impl View for GroupVoiceTraffic {
    type V = Seq<u8>;

    /// The nine bytes of the underlying Link Control word.
    closed spec fn view(&self) -> Seq<u8> {
        self.0@
    }
}

impl GroupVoiceTraffic {
    /// Create from a base LC decoder.
    pub fn new(lc: LinkControlFields) -> (r: Self)
        ensures
            r@ == lc@,
    {
        Self(lc)
    }

    /// Manufacturer ID.
    pub fn manufacturer_id(&self) -> (r: u8)
        ensures
            r == self@[1],
    {
        self.0.0[1]
    }

    /// Service options byte.
    pub fn service_options(&self) -> (r: ServiceOptions)
        ensures
            r@ == self@[2],
    {
        ServiceOptions(self.0.0[2])
    }

    /// Talkgroup on the traffic channel.
    pub fn talkgroup(&self) -> (r: TalkgroupId)
        ensures
            r@ == self@[4] * 256 + self@[5],
    {
        let hi = self.0.0[4] as u16;
        let lo = self.0.0[5] as u16;
        TalkgroupId::new(hi * 256 + lo)
    }

    /// Source unit (subscriber radio) address.
    pub fn source_unit(&self) -> (r: SourceId)
        ensures
            r@ == self@[6] * 0x1_0000 + self@[7] * 0x100 + self@[8],
    {
        let bytes = &self.0.0;
        let v = (bytes[6] as u32) * 0x1_0000 + (bytes[7] as u32) * 0x100 + (bytes[8] as u32);
        proof {
            assert(v < 0x100_0000);
            vstd::arithmetic::div_mod::lemma_small_mod(v as nat, 0x100_0000);
        }
        SourceId::new(v)
    }
}

/// Service options byte from Link Control payloads.
///
/// Bit layout:
/// - Bit 7: Emergency
/// - Bit 6: Protected (encrypted voice)
/// - Bit 5: Full duplex
/// - Bit 4: Packet switched
/// - Bits 0-2: Priority (0-7)
#[derive(Clone, Copy, Debug, PartialEq, Eq)]
pub struct ServiceOptions(u8);

impl View for ServiceOptions {
    type V = u8;

    /// The raw options byte.
    closed spec fn view(&self) -> u8 {
        self.0
    }
}

/// Whether the bit of weight `weight` (a power of two) is set in `v`.
pub open spec fn flag(v: u8, weight: nat) -> bool {
    (v as nat / weight) % 2 == 1
}

/// The flags of a service options byte, in display order, each present
/// when its bit is set.
pub open spec fn service_flags(v: u8) -> Seq<Seq<char>> {
    let f1 = if flag(v, 128) { seq!["EMERG"@] } else { Seq::<Seq<char>>::empty() };
    let f2 = if flag(v, 64) { seq!["ENCR"@] } else { Seq::<Seq<char>>::empty() };
    let f3 = if flag(v, 32) { seq!["DUPLEX"@] } else { Seq::<Seq<char>>::empty() };
    let f4 = if flag(v, 16) { seq!["PKT"@] } else { Seq::<Seq<char>>::empty() };
    f1 + f2 + f3 + f4
}

/// Strings joined with `+` between them.
pub open spec fn join_plus(parts: Seq<Seq<char>>) -> Seq<char>
    decreases parts.len(),
{
    if parts.len() == 0 {
        Seq::empty()
    } else if parts.len() == 1 {
        parts[0]
    } else {
        join_plus(parts.drop_last()) + "+"@ + parts.last()
    }
}

/// The display text of a service options byte: the set flags joined with
/// `+`, then ` pri=` and the priority.
pub open spec fn service_options_text(v: u8) -> Seq<char> {
    join_plus(service_flags(v)) + " pri="@ + decimal((v % 8) as nat)
}

impl ServiceOptions {
    /// Create from a raw byte.
    pub fn new(byte: u8) -> (r: Self)
        ensures
            r@ == byte,
    {
        Self(byte)
    }

    /// Whether this is an emergency transmission.
    pub fn emergency(&self) -> (r: bool)
        ensures
            r == flag(self@, 128),
    {
        proof {
            crate::p25::bitwise::lemma_mask_u8(self.0);
        }
        self.0 & 0x80 != 0
    }

    /// Whether voice is encrypted.
    pub fn protected(&self) -> (r: bool)
        ensures
            r == flag(self@, 64),
    {
        proof {
            crate::p25::bitwise::lemma_mask_u8(self.0);
        }
        self.0 & 0x40 != 0
    }

    /// Whether the channel is full duplex.
    pub fn full_duplex(&self) -> (r: bool)
        ensures
            r == flag(self@, 32),
    {
        proof {
            crate::p25::bitwise::lemma_mask_u8(self.0);
        }
        self.0 & 0x20 != 0
    }

    /// Whether the channel is packet switched.
    pub fn packet_switched(&self) -> (r: bool)
        ensures
            r == flag(self@, 16),
    {
        proof {
            crate::p25::bitwise::lemma_mask_u8(self.0);
        }
        self.0 & 0x10 != 0
    }

    /// Priority level (0-7).
    pub fn priority(&self) -> (r: u8)
        ensures
            r == self@ % 8,
    {
        proof {
            crate::p25::bitwise::lemma_mask_u8(self.0);
        }
        self.0 & 0x07
    }

    /// The display text: the set flags joined with `+`, then the priority.
    pub fn to_string(&self) -> (r: String)
        ensures
            r@ == service_options_text(self@),
    {
        let mut flags: Vec<&'static str> = Vec::new();
        if self.emergency() {
            flags.push("EMERG");
        }
        if self.protected() {
            flags.push("ENCR");
        }
        if self.full_duplex() {
            flags.push("DUPLEX");
        }
        if self.packet_switched() {
            flags.push("PKT");
        }
        assert(flags@.map_values(|t: &'static str| t@) =~= service_flags(self@));
        let mut s = String::new();
        let mut i: usize = 0;
        while i < flags.len()
            invariant
                i <= flags@.len(),
                flags@.len() <= 4,
                s@ == join_plus(flags@.map_values(|t: &'static str| t@).subrange(0, i as int)),
            decreases flags@.len() - i,
        {
            let ghost prefix = flags@.map_values(|t: &'static str| t@).subrange(0, i as int);
            let ghost next = flags@.map_values(|t: &'static str| t@).subrange(0, i + 1);
            if i > 0 {
                s.append("+");
            }
            s.append(flags[i]);
            proof {
                assert(next.drop_last() =~= prefix);
                assert(next.last() == flags@[i as int]@);
                if i == 0 {
                    assert(prefix.len() == 0);
                    assert(next.len() == 1);
                }
            }
            i += 1;
        }
        proof {
            assert(flags@.map_values(|t: &'static str| t@).subrange(0, flags@.len() as int) =~= flags@.map_values(|t: &'static str| t@));
        }
        s.append(" pri=");
        push_decimal(&mut s, self.priority() as u64);
        s
    }
}

} // verus!

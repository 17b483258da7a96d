//! TSBK opcode definitions.
//!
//! Every P25 Trunking Signaling Block contains a 6-bit opcode identifying the
//! message type. This module maps raw opcode values to typed enum variants.
//!
//! Reference: TIA-102.AABF-A Table 7.1

use vstd::prelude::*;

verus! {

/// TSBK opcode identifying the message type.
///
/// All known opcodes from TIA-102.AABF-A are represented as named variants.
/// Unknown opcodes are captured as `Unknown(u8)` rather than causing errors,
/// since RF noise may produce any opcode value.
#[derive(Debug, Clone, Copy, PartialEq, Eq, Hash)]
pub enum TsbkOpcode {
    /// Group Voice Channel Grant (0x00).
    GroupVoiceChannelGrant,
    /// Group Voice Channel Grant Update (0x02).
    GroupVoiceChannelGrantUpdate,
    /// Group Voice Channel Grant Update - Explicit (0x03).
    GroupVoiceChannelGrantUpdateExplicit,
    /// Unit to Unit Voice Channel Grant (0x04).
    UnitToUnitVoiceChannelGrant,
    /// Unit to Unit Answer Request (0x05).
    UnitToUnitAnswerRequest,
    /// Unit to Unit Voice Channel Grant Update (0x06).
    UnitToUnitVoiceChannelGrantUpdate,
    /// Telephone Interconnect Voice Channel Grant (0x08).
    TelephoneInterconnectVoiceChannelGrant,
    /// Emergency Alarm (0x09).
    EmergencyAlarm,
    /// Acknowledge Response (0x10).
    AcknowledgeResponse,
    /// SNDCP Data Channel Grant (0x14).
    SndcpDataChannelGrant,
    /// SNDCP Reconnect Request (0x15).
    SndcpReconnectRequest,
    /// Deny Response (0x16).
    DenyResponse,
    /// Group Affiliation Query (0x18).
    GroupAffiliationQuery,
    /// Location Registration Response (0x1A).
    LocationRegistrationResponse,
    /// Channel Identifier Update (0x20).
    ChannelIdentifierUpdate,
    /// Extended Function Command (0x24).
    ExtendedFunctionCommand,
    /// Group Affiliation Response (0x28).
    GroupAffiliationResponse,
    /// Group Affiliation Query Response (0x2A).
    GroupAffiliationQueryResponse,
    /// Unit Registration Response (0x2C).
    UnitRegistrationResponse,
    /// Unit Deregistration Acknowledge (0x2F).
    UnitDeregistrationAcknowledge,
    /// Power Control Broadcast (0x30).
    PowerControlBroadcast,
    /// Channel Identifier Update - TDMA (0x33).
    ChannelIdentifierUpdateTdma,
    /// Channel Identifier Update - VHF/UHF (0x34).
    ChannelIdentifierUpdateVu,
    /// Network Status Broadcast (0x39).
    NetworkStatusBroadcast,
    /// RFSS Status Broadcast (0x3A).
    RfssStatusBroadcast,
    /// Secondary Control Channel Broadcast (0x3B).
    SecondaryControlChannelBroadcast,
    /// Adjacent Status Broadcast (0x3C).
    AdjacentStatusBroadcast,
    /// Channel Identifier Update - Standard (0x3D).
    ChannelIdentifierUpdateStandard,
    /// Unknown or unrecognized opcode.
    Unknown(u8),
}

/// The opcode for a raw value.
pub open spec fn opcode_for(value: u8) -> TsbkOpcode {
    if false {
        TsbkOpcode::Unknown(value)
    } else if value == 0x00 {
        TsbkOpcode::GroupVoiceChannelGrant
    } else if value == 0x02 {
        TsbkOpcode::GroupVoiceChannelGrantUpdate
    } else if value == 0x03 {
        TsbkOpcode::GroupVoiceChannelGrantUpdateExplicit
    } else if value == 0x04 {
        TsbkOpcode::UnitToUnitVoiceChannelGrant
    } else if value == 0x05 {
        TsbkOpcode::UnitToUnitAnswerRequest
    } else if value == 0x06 {
        TsbkOpcode::UnitToUnitVoiceChannelGrantUpdate
    } else if value == 0x08 {
        TsbkOpcode::TelephoneInterconnectVoiceChannelGrant
    } else if value == 0x09 {
        TsbkOpcode::EmergencyAlarm
    } else if value == 0x10 {
        TsbkOpcode::AcknowledgeResponse
    } else if value == 0x14 {
        TsbkOpcode::SndcpDataChannelGrant
    } else if value == 0x15 {
        TsbkOpcode::SndcpReconnectRequest
    } else if value == 0x16 {
        TsbkOpcode::DenyResponse
    } else if value == 0x18 {
        TsbkOpcode::GroupAffiliationQuery
    } else if value == 0x1A {
        TsbkOpcode::LocationRegistrationResponse
    } else if value == 0x20 {
        TsbkOpcode::ChannelIdentifierUpdate
    } else if value == 0x24 {
        TsbkOpcode::ExtendedFunctionCommand
    } else if value == 0x28 {
        TsbkOpcode::GroupAffiliationResponse
    } else if value == 0x2A {
        TsbkOpcode::GroupAffiliationQueryResponse
    } else if value == 0x2C {
        TsbkOpcode::UnitRegistrationResponse
    } else if value == 0x2F {
        TsbkOpcode::UnitDeregistrationAcknowledge
    } else if value == 0x30 {
        TsbkOpcode::PowerControlBroadcast
    } else if value == 0x33 {
        TsbkOpcode::ChannelIdentifierUpdateTdma
    } else if value == 0x34 {
        TsbkOpcode::ChannelIdentifierUpdateVu
    } else if value == 0x39 {
        TsbkOpcode::NetworkStatusBroadcast
    } else if value == 0x3A {
        TsbkOpcode::RfssStatusBroadcast
    } else if value == 0x3B {
        TsbkOpcode::SecondaryControlChannelBroadcast
    } else if value == 0x3C {
        TsbkOpcode::AdjacentStatusBroadcast
    } else if value == 0x3D {
        TsbkOpcode::ChannelIdentifierUpdateStandard
    } else {
        TsbkOpcode::Unknown(value)
    }
}

/// The raw value of an opcode.
pub open spec fn opcode_value(op: TsbkOpcode) -> u8 {
    match op {
        TsbkOpcode::GroupVoiceChannelGrant => 0x00,
        TsbkOpcode::GroupVoiceChannelGrantUpdate => 0x02,
        TsbkOpcode::GroupVoiceChannelGrantUpdateExplicit => 0x03,
        TsbkOpcode::UnitToUnitVoiceChannelGrant => 0x04,
        TsbkOpcode::UnitToUnitAnswerRequest => 0x05,
        TsbkOpcode::UnitToUnitVoiceChannelGrantUpdate => 0x06,
        TsbkOpcode::TelephoneInterconnectVoiceChannelGrant => 0x08,
        TsbkOpcode::EmergencyAlarm => 0x09,
        TsbkOpcode::AcknowledgeResponse => 0x10,
        TsbkOpcode::SndcpDataChannelGrant => 0x14,
        TsbkOpcode::SndcpReconnectRequest => 0x15,
        TsbkOpcode::DenyResponse => 0x16,
        TsbkOpcode::GroupAffiliationQuery => 0x18,
        TsbkOpcode::LocationRegistrationResponse => 0x1A,
        TsbkOpcode::ChannelIdentifierUpdate => 0x20,
        TsbkOpcode::ExtendedFunctionCommand => 0x24,
        TsbkOpcode::GroupAffiliationResponse => 0x28,
        TsbkOpcode::GroupAffiliationQueryResponse => 0x2A,
        TsbkOpcode::UnitRegistrationResponse => 0x2C,
        TsbkOpcode::UnitDeregistrationAcknowledge => 0x2F,
        TsbkOpcode::PowerControlBroadcast => 0x30,
        TsbkOpcode::ChannelIdentifierUpdateTdma => 0x33,
        TsbkOpcode::ChannelIdentifierUpdateVu => 0x34,
        TsbkOpcode::NetworkStatusBroadcast => 0x39,
        TsbkOpcode::RfssStatusBroadcast => 0x3A,
        TsbkOpcode::SecondaryControlChannelBroadcast => 0x3B,
        TsbkOpcode::AdjacentStatusBroadcast => 0x3C,
        TsbkOpcode::ChannelIdentifierUpdateStandard => 0x3D,
        TsbkOpcode::Unknown(v) => v,
    }
}

/// The standard abbreviation of an opcode.
pub open spec fn opcode_abbreviation(op: TsbkOpcode) -> Seq<char> {
    match op {
        TsbkOpcode::GroupVoiceChannelGrant => "GRP_V_CH_GRANT"@,
        TsbkOpcode::GroupVoiceChannelGrantUpdate => "GRP_V_CH_GRANT_UPDT"@,
        TsbkOpcode::GroupVoiceChannelGrantUpdateExplicit => "GRP_V_CH_GRANT_UPDT_EXP"@,
        TsbkOpcode::UnitToUnitVoiceChannelGrant => "UNT_TO_UNT_CH_GRANT"@,
        TsbkOpcode::UnitToUnitAnswerRequest => "UNT_TO_UNT_ANS_REQ"@,
        TsbkOpcode::UnitToUnitVoiceChannelGrantUpdate => "UNT_TO_UNT_CH_GRANT_UPDT"@,
        TsbkOpcode::TelephoneInterconnectVoiceChannelGrant => "TEL_INT_CH_GRANT"@,
        TsbkOpcode::EmergencyAlarm => "EMERGENCY_ALRM"@,
        TsbkOpcode::AcknowledgeResponse => "ACK_RSP"@,
        TsbkOpcode::SndcpDataChannelGrant => "SNDCP_DATA_CH_GRANT"@,
        TsbkOpcode::SndcpReconnectRequest => "SNDCP_RCN_REQ"@,
        TsbkOpcode::DenyResponse => "DENY_RSP"@,
        TsbkOpcode::GroupAffiliationQuery => "GRP_AFF_QRY"@,
        TsbkOpcode::LocationRegistrationResponse => "LOC_REG_RSP"@,
        TsbkOpcode::ChannelIdentifierUpdate => "IDEN_UP"@,
        TsbkOpcode::ExtendedFunctionCommand => "EXT_FNCT_CMD"@,
        TsbkOpcode::GroupAffiliationResponse => "GRP_AFF_RSP"@,
        TsbkOpcode::GroupAffiliationQueryResponse => "GRP_AFF_QRY_RSP"@,
        TsbkOpcode::UnitRegistrationResponse => "U_REG_RSP"@,
        TsbkOpcode::UnitDeregistrationAcknowledge => "U_DE_REG_ACK"@,
        TsbkOpcode::PowerControlBroadcast => "PWR_CTRL_BCST"@,
        TsbkOpcode::ChannelIdentifierUpdateTdma => "IDEN_UP_TDMA"@,
        TsbkOpcode::ChannelIdentifierUpdateVu => "IDEN_UP_VU"@,
        TsbkOpcode::NetworkStatusBroadcast => "NET_STS_BCST"@,
        TsbkOpcode::RfssStatusBroadcast => "RFSS_STS_BCST"@,
        TsbkOpcode::SecondaryControlChannelBroadcast => "SEC_CC_BCST"@,
        TsbkOpcode::AdjacentStatusBroadcast => "ADJ_STS_BCST"@,
        TsbkOpcode::ChannelIdentifierUpdateStandard => "CH_PARAMS_UPDT"@,
        TsbkOpcode::Unknown(_) => "UNKNOWN"@,
    }
}

impl TsbkOpcode {
    /// Create a `TsbkOpcode` from a raw 6-bit opcode value.
    pub fn from_u8(value: u8) -> (r: Self)
        ensures
            r == opcode_for(value),
    {
        match value {
            0x00 => Self::GroupVoiceChannelGrant,
            0x02 => Self::GroupVoiceChannelGrantUpdate,
            0x03 => Self::GroupVoiceChannelGrantUpdateExplicit,
            0x04 => Self::UnitToUnitVoiceChannelGrant,
            0x05 => Self::UnitToUnitAnswerRequest,
            0x06 => Self::UnitToUnitVoiceChannelGrantUpdate,
            0x08 => Self::TelephoneInterconnectVoiceChannelGrant,
            0x09 => Self::EmergencyAlarm,
            0x10 => Self::AcknowledgeResponse,
            0x14 => Self::SndcpDataChannelGrant,
            0x15 => Self::SndcpReconnectRequest,
            0x16 => Self::DenyResponse,
            0x18 => Self::GroupAffiliationQuery,
            0x1A => Self::LocationRegistrationResponse,
            0x20 => Self::ChannelIdentifierUpdate,
            0x24 => Self::ExtendedFunctionCommand,
            0x28 => Self::GroupAffiliationResponse,
            0x2A => Self::GroupAffiliationQueryResponse,
            0x2C => Self::UnitRegistrationResponse,
            0x2F => Self::UnitDeregistrationAcknowledge,
            0x30 => Self::PowerControlBroadcast,
            0x33 => Self::ChannelIdentifierUpdateTdma,
            0x34 => Self::ChannelIdentifierUpdateVu,
            0x39 => Self::NetworkStatusBroadcast,
            0x3A => Self::RfssStatusBroadcast,
            0x3B => Self::SecondaryControlChannelBroadcast,
            0x3C => Self::AdjacentStatusBroadcast,
            0x3D => Self::ChannelIdentifierUpdateStandard,
            other => Self::Unknown(other),
        }
    }

    /// Return the raw 6-bit opcode value.
    pub fn to_u8(&self) -> (r: u8)
        ensures
            r == opcode_value(*self),
    {
        match self {
            Self::GroupVoiceChannelGrant => 0x00,
            Self::GroupVoiceChannelGrantUpdate => 0x02,
            Self::GroupVoiceChannelGrantUpdateExplicit => 0x03,
            Self::UnitToUnitVoiceChannelGrant => 0x04,
            Self::UnitToUnitAnswerRequest => 0x05,
            Self::UnitToUnitVoiceChannelGrantUpdate => 0x06,
            Self::TelephoneInterconnectVoiceChannelGrant => 0x08,
            Self::EmergencyAlarm => 0x09,
            Self::AcknowledgeResponse => 0x10,
            Self::SndcpDataChannelGrant => 0x14,
            Self::SndcpReconnectRequest => 0x15,
            Self::DenyResponse => 0x16,
            Self::GroupAffiliationQuery => 0x18,
            Self::LocationRegistrationResponse => 0x1A,
            Self::ChannelIdentifierUpdate => 0x20,
            Self::ExtendedFunctionCommand => 0x24,
            Self::GroupAffiliationResponse => 0x28,
            Self::GroupAffiliationQueryResponse => 0x2A,
            Self::UnitRegistrationResponse => 0x2C,
            Self::UnitDeregistrationAcknowledge => 0x2F,
            Self::PowerControlBroadcast => 0x30,
            Self::ChannelIdentifierUpdateTdma => 0x33,
            Self::ChannelIdentifierUpdateVu => 0x34,
            Self::NetworkStatusBroadcast => 0x39,
            Self::RfssStatusBroadcast => 0x3A,
            Self::SecondaryControlChannelBroadcast => 0x3B,
            Self::AdjacentStatusBroadcast => 0x3C,
            Self::ChannelIdentifierUpdateStandard => 0x3D,
            Self::Unknown(v) => *v,
        }
    }

    /// Return the abbreviated name used in JSON output.
    ///
    /// These match the standard P25 abbreviations from TIA-102.AABF-A.
    pub fn abbreviation(&self) -> (r: &'static str)
        ensures
            r@ == opcode_abbreviation(*self),
    {
        match self {
            Self::GroupVoiceChannelGrant => "GRP_V_CH_GRANT",
            Self::GroupVoiceChannelGrantUpdate => "GRP_V_CH_GRANT_UPDT",
            Self::GroupVoiceChannelGrantUpdateExplicit => "GRP_V_CH_GRANT_UPDT_EXP",
            Self::UnitToUnitVoiceChannelGrant => "UNT_TO_UNT_CH_GRANT",
            Self::UnitToUnitAnswerRequest => "UNT_TO_UNT_ANS_REQ",
            Self::UnitToUnitVoiceChannelGrantUpdate => "UNT_TO_UNT_CH_GRANT_UPDT",
            Self::TelephoneInterconnectVoiceChannelGrant => "TEL_INT_CH_GRANT",
            Self::EmergencyAlarm => "EMERGENCY_ALRM",
            Self::AcknowledgeResponse => "ACK_RSP",
            Self::SndcpDataChannelGrant => "SNDCP_DATA_CH_GRANT",
            Self::SndcpReconnectRequest => "SNDCP_RCN_REQ",
            Self::DenyResponse => "DENY_RSP",
            Self::GroupAffiliationQuery => "GRP_AFF_QRY",
            Self::LocationRegistrationResponse => "LOC_REG_RSP",
            Self::ChannelIdentifierUpdate => "IDEN_UP",
            Self::ExtendedFunctionCommand => "EXT_FNCT_CMD",
            Self::GroupAffiliationResponse => "GRP_AFF_RSP",
            Self::GroupAffiliationQueryResponse => "GRP_AFF_QRY_RSP",
            Self::UnitRegistrationResponse => "U_REG_RSP",
            Self::UnitDeregistrationAcknowledge => "U_DE_REG_ACK",
            Self::PowerControlBroadcast => "PWR_CTRL_BCST",
            Self::ChannelIdentifierUpdateTdma => "IDEN_UP_TDMA",
            Self::ChannelIdentifierUpdateVu => "IDEN_UP_VU",
            Self::NetworkStatusBroadcast => "NET_STS_BCST",
            Self::RfssStatusBroadcast => "RFSS_STS_BCST",
            Self::SecondaryControlChannelBroadcast => "SEC_CC_BCST",
            Self::AdjacentStatusBroadcast => "ADJ_STS_BCST",
            Self::ChannelIdentifierUpdateStandard => "CH_PARAMS_UPDT",
            Self::Unknown(_) => "UNKNOWN",
        }
    }
}

/// Reading an opcode back gives the raw value it was made from.
pub proof fn lemma_opcode_value_roundtrip(value: u8)
    ensures
        opcode_value(opcode_for(value)) == value,
{
}

/// Every named opcode is read back from its raw value: the raw value of a
/// named opcode never decodes as unknown or as another opcode.
pub proof fn lemma_named_opcode_roundtrip(op: TsbkOpcode)
    requires
        !(op is Unknown),
    ensures
        opcode_for(opcode_value(op)) == op,
{
}

/// A raw value decodes as unknown exactly when no named opcode has it.
pub proof fn lemma_unknown_opcode(value: u8, op: TsbkOpcode)
    requires
        !(op is Unknown),
        opcode_for(value) is Unknown,
    ensures
        opcode_value(op) != value,
{
    lemma_named_opcode_roundtrip(op);
}

} // verus!

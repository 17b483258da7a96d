use trunker::p25::voice::control::{
    GroupVoiceTraffic, LinkControlFields, LinkControlOpcode, ServiceOptions,
};

#[test]
fn link_control_basic_fields() {
    let lc = LinkControlFields::new([
        0b00000000, 0b00000000, 0b10110101, 0b00000000, 0b00000000, 0b00000001, 0xDE, 0xAD,
        0xBE,
    ]);

    assert_eq!(lc.opcode(), LinkControlOpcode::GroupVoiceTraffic);
    assert!(!lc.protected());
    assert_eq!(
        lc.payload(),
        &[
            0b00000000, 0b10110101, 0b00000000, 0b00000000, 0b00000001, 0xDE, 0xAD, 0xBE
        ]
    );
}

#[test]
fn link_control_protected_flag() {
    let lc = LinkControlFields::new([0b10100010, 0, 0, 0, 0, 0, 0, 0, 0]);
    assert!(lc.protected());
    assert_eq!(lc.opcode(), LinkControlOpcode::AdjacentSite);
}

#[test]
fn link_control_unknown_opcode() {
    let lc = LinkControlFields::new([0b00001010, 0, 0, 0, 0, 0, 0, 0, 0]);
    assert_eq!(lc.opcode(), LinkControlOpcode::Unknown(0x0A));
}

#[test]
fn group_voice_traffic_parsing() {
    let lc = LinkControlFields::new([
        0b00000000, 0b00000000, 0b10110101, 0b00000000, 0b00000000, 0b00000001, 0xDE, 0xAD,
        0xBE,
    ]);
    assert_eq!(lc.opcode(), LinkControlOpcode::GroupVoiceTraffic);
    let gvt = GroupVoiceTraffic::new(lc);

    assert_eq!(gvt.manufacturer_id(), 0);
    assert_eq!(gvt.talkgroup().value(), 1);
    assert_eq!(gvt.source_unit().value(), 0xDEADBE);

    let opts = gvt.service_options();
    assert!(opts.emergency());
    assert!(!opts.protected());
    assert!(opts.full_duplex());
    assert!(opts.packet_switched());
    assert_eq!(opts.priority(), 5);
}

#[test]
fn service_options_all_set() {
    let opts = ServiceOptions::new(0xFF);
    assert!(opts.emergency());
    assert!(opts.protected());
    assert!(opts.full_duplex());
    assert!(opts.packet_switched());
    assert_eq!(opts.priority(), 7);
}

#[test]
fn service_options_none_set() {
    let opts = ServiceOptions::new(0x00);
    assert!(!opts.emergency());
    assert!(!opts.protected());
    assert!(!opts.full_duplex());
    assert!(!opts.packet_switched());
    assert_eq!(opts.priority(), 0);
}

#[test]
fn opcode_all_known_values() {
    let cases = [
        (0x00, LinkControlOpcode::GroupVoiceTraffic),
        (0x02, LinkControlOpcode::GroupVoiceUpdate),
        (0x03, LinkControlOpcode::UnitVoiceTraffic),
        (0x04, LinkControlOpcode::GroupVoiceUpdateExplicit),
        (0x05, LinkControlOpcode::UnitCallRequest),
        (0x06, LinkControlOpcode::PhoneTraffic),
        (0x07, LinkControlOpcode::PhoneAlert),
        (0x0F, LinkControlOpcode::CallTermination),
        (0x10, LinkControlOpcode::GroupAffiliationQuery),
        (0x11, LinkControlOpcode::UnitRegistrationRequest),
        (0x12, LinkControlOpcode::UnitAuthenticationRequest),
        (0x13, LinkControlOpcode::UnitStatusRequest),
        (0x14, LinkControlOpcode::UnitStatusUpdate),
        (0x15, LinkControlOpcode::UnitShortMessage),
        (0x16, LinkControlOpcode::UnitCallAlert),
        (0x17, LinkControlOpcode::ExtendedFunction),
        (0x18, LinkControlOpcode::ChannelParamsUpdate),
        (0x19, LinkControlOpcode::ChannelParamsExplicit),
        (0x20, LinkControlOpcode::SystemServiceBroadcast),
        (0x21, LinkControlOpcode::AltControlChannel),
        (0x22, LinkControlOpcode::AdjacentSite),
        (0x23, LinkControlOpcode::RfssStatusBroadcast),
        (0x24, LinkControlOpcode::NetworkStatusBroadcast),
        (0x25, LinkControlOpcode::ProtectionParamBroadcast),
        (0x26, LinkControlOpcode::AltControlChannelExplicit),
        (0x27, LinkControlOpcode::AdjacentSiteExplicit),
        (0x28, LinkControlOpcode::RfssStatusExplicit),
        (0x29, LinkControlOpcode::NetworkStatusExplicit),
    ];

    for (bits, expected) in cases {
        assert_eq!(
            LinkControlOpcode::from_bits(bits),
            expected,
            "opcode 0x{bits:02X}"
        );
    }
}

#[test]
fn opcode_unknown_values() {
    assert_eq!(
        LinkControlOpcode::from_bits(0x01),
        LinkControlOpcode::Unknown(0x01)
    );
    assert_eq!(
        LinkControlOpcode::from_bits(0x3F),
        LinkControlOpcode::Unknown(0x3F)
    );
}

#[test]
fn link_control_display() {
    let lc = LinkControlFields::new([0; 9]);
    assert_eq!(lc.to_string(), "opcode=GRP_V_CH_USR, protected=false");
}

#[test]
fn service_options_display() {
    let opts = ServiceOptions::new(0b10110101);
    assert_eq!(opts.to_string(), "EMERG+DUPLEX+PKT pri=5");
}

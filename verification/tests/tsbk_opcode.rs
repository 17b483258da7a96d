use trunker::p25::tsbk::opcode::TsbkOpcode;

#[test]
fn from_u8_known_opcodes() {
    assert_eq!(
        TsbkOpcode::from_u8(0x00),
        TsbkOpcode::GroupVoiceChannelGrant
    );
    assert_eq!(
        TsbkOpcode::from_u8(0x02),
        TsbkOpcode::GroupVoiceChannelGrantUpdate
    );
    assert_eq!(
        TsbkOpcode::from_u8(0x34),
        TsbkOpcode::ChannelIdentifierUpdateVu
    );
    assert_eq!(
        TsbkOpcode::from_u8(0x3C),
        TsbkOpcode::AdjacentStatusBroadcast
    );
}

#[test]
fn from_u8_unknown_opcode() {
    assert_eq!(TsbkOpcode::from_u8(0x07), TsbkOpcode::Unknown(0x07));
    assert_eq!(TsbkOpcode::from_u8(0x3F), TsbkOpcode::Unknown(0x3F));
}

#[test]
fn roundtrip_u8() {
    for value in 0..=0x3F {
        let opcode = TsbkOpcode::from_u8(value);
        assert_eq!(opcode.to_u8(), value);
    }
}


#[test]
fn abbreviation_channel_parameters_update() {
    assert_eq!(TsbkOpcode::from_u8(0x3D).abbreviation(), "CH_PARAMS_UPDT");
    assert_eq!(TsbkOpcode::from_u8(0x3D).to_u8(), 0x3D);
    assert_eq!(TsbkOpcode::from_u8(0x34).abbreviation(), "IDEN_UP_VU");
}

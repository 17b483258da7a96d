use trunker::p25::crc::crc16;
use trunker::p25::tsbk::fields::TsbkFields;
use trunker::p25::tsbk::opcode::TsbkOpcode;
use trunker::p25::tsbk::parser::{parse_tsbk, TsbkError};
use trunker::p25::types::{
    ChannelId, ChannelIdentifier, ManufacturerId, RfssId, SiteId, SystemId, TalkgroupId, UnitId, Wacn,
};
use trunker::p25::voice::control::ServiceOptions;

/// Build a 12-byte TSBK with valid CRC from 10 header+payload bytes.
fn make_tsbk(header_and_payload: &[u8; 10]) -> [u8; 12] {
    let mut data = [0u8; 12];
    data[..10].copy_from_slice(header_and_payload);
    let crc_val = crc16(&data[..10]);
    data[10] = (crc_val >> 8) as u8;
    data[11] = (crc_val & 0xFF) as u8;
    data
}

#[test]
fn parser_parse_group_voice_channel_grant() {
    // last_block=1, protected=0, opcode=0x00 -> byte 0 = 0b10_000000 = 0x80
    // mfrid=0x00
    // service_options=0x00
    // channel=0x1234
    // talkgroup=0x0EB9 (3769)
    // source=0x003039 (12345)
    let tsbk = make_tsbk(&[0x80, 0x00, 0x00, 0x12, 0x34, 0x0E, 0xB9, 0x00, 0x30, 0x39]);

    let msg = parse_tsbk(&tsbk).unwrap();
    assert_eq!(msg.opcode, TsbkOpcode::GroupVoiceChannelGrant);
    assert!(msg.last_block);
    assert!(!msg.protected);
    assert_eq!(msg.manufacturer_id, ManufacturerId(0x00));

    match msg.fields {
        TsbkFields::GroupVoiceChannelGrant {
            service_options,
            channel,
            talkgroup,
            source,
        } => {
            assert_eq!(service_options, ServiceOptions::new(0x00));
            assert_eq!(channel, ChannelId(0x1234));
            assert_eq!(talkgroup, TalkgroupId::new(3769));
            assert_eq!(source, UnitId(12345));
        }
        _ => panic!("expected GroupVoiceChannelGrant"),
    }
}

#[test]
fn parse_motorola_group_regroup() {
    // opcode=0x00, mfrid=0x90 -> Motorola Group Regroup
    // last_block=1, protected=0, opcode=0x00 -> 0x80
    // supergroup=0x0001, ga1=0x0002, ga2=0x0003, ga3=0x0004
    let tsbk = make_tsbk(&[0x80, 0x90, 0x00, 0x01, 0x00, 0x02, 0x00, 0x03, 0x00, 0x04]);

    let msg = parse_tsbk(&tsbk).unwrap();
    assert_eq!(msg.opcode, TsbkOpcode::GroupVoiceChannelGrant);
    assert_eq!(msg.manufacturer_id, ManufacturerId(0x90));

    match msg.fields {
        TsbkFields::MotorolaGroupRegroupCommand {
            supergroup,
            group_a,
            group_b,
            group_c,
        } => {
            assert_eq!(supergroup, TalkgroupId::new(1));
            assert_eq!(group_a, TalkgroupId::new(2));
            assert_eq!(group_b, TalkgroupId::new(3));
            assert_eq!(group_c, TalkgroupId::new(4));
        }
        _ => panic!("expected MotorolaGroupRegroupCommand"),
    }
}

#[test]
fn parse_group_voice_channel_grant_update() {
    // last_block=1, opcode=0x02 -> 0b10_000010 = 0x82
    // ch_a=0xAAAA, tg_a=0x1111, ch_b=0xBBBB, tg_b=0x2222
    let tsbk = make_tsbk(&[0x82, 0x00, 0xAA, 0xAA, 0x11, 0x11, 0xBB, 0xBB, 0x22, 0x22]);

    let msg = parse_tsbk(&tsbk).unwrap();
    assert_eq!(msg.opcode, TsbkOpcode::GroupVoiceChannelGrantUpdate);

    match msg.fields {
        TsbkFields::GroupVoiceChannelGrantUpdate {
            channel_a,
            talkgroup_a,
            channel_b,
            talkgroup_b,
        } => {
            assert_eq!(channel_a, ChannelId(0xAAAA));
            assert_eq!(talkgroup_a, TalkgroupId::new(0x1111));
            assert_eq!(channel_b, ChannelId(0xBBBB));
            assert_eq!(talkgroup_b, TalkgroupId::new(0x2222));
        }
        _ => panic!("expected GroupVoiceChannelGrantUpdate"),
    }
}

#[test]
fn parse_unit_to_unit_voice_channel_grant() {
    // last_block=1, opcode=0x04 -> 0b10_000100 = 0x84
    // mfrid=0x00
    // (8 bits reserved/service_options) then:
    // channel=0x5678, target=0x00ABCD (43981), source=0x001234 (4660)
    let tsbk = make_tsbk(&[0x84, 0x00, 0x00, 0x56, 0x78, 0x00, 0xAB, 0xCD, 0x12, 0x34]);

    let msg = parse_tsbk(&tsbk).unwrap();
    match msg.fields {
        TsbkFields::UnitToUnitVoiceChannelGrant {
            channel,
            target,
            source,
        } => {
            assert_eq!(channel, ChannelId(0x5678));
            assert_eq!(target, UnitId(0x00ABCD));
            assert_eq!(source, UnitId(0xCD1234));
        }
        _ => panic!("expected UnitToUnitVoiceChannelGrant"),
    }
}

#[test]
fn parser_parse_network_status_broadcast() {
    // last_block=1, opcode=0x39 -> 0b10_111001 = 0xB9
    // mfrid=0x00
    // (8 reserved bits)
    // wacn(20 bits)=0xBEE00, sysid(12 bits)=0x5F2, channel(16 bits)=0x1234
    //
    // Payload bits (index 16..80 = 64 bits):
    //   8 reserved | 20 wacn | 12 sysid | 16 channel | 8 service_class
    //   00000000 | 10111110111000000000 | 010111110010 | 0001001000110100 | ...
    //
    // Let's just pack the bytes carefully:
    // Index 16..24: reserved = 0x00
    // Index 24..44: wacn=0xBEE00 (20 bits)
    //   0xBEE00 = 0b 1011 1110 1110 0000 0000
    //   bits 24..32: 0b10111110 = 0xBE
    //   bits 32..40: 0b11100000 = 0xE0
    //   bits 40..44: 0b0000 (first 4 of next byte)
    // Index 44..56: sysid=0x5F2 (12 bits)
    //   0x5F2 = 0b 0101 1111 0010
    //   bits 44..48: 0b0101 -> combined with wacn bits 40..44: byte[5] = 0b0000_0101 = 0x05
    //   bits 48..56: 0b11110010 = 0xF2
    // Index 56..72: channel=0x1234
    //   byte[7] = 0x12, byte[8] = 0x34
    // Index 72..80: service class = 0x00
    //   byte[9] = 0x00
    let tsbk = make_tsbk(&[0xB9, 0x00, 0x00, 0xBE, 0xE0, 0x05, 0xF2, 0x12, 0x34, 0x00]);

    let msg = parse_tsbk(&tsbk).unwrap();
    assert_eq!(msg.opcode, TsbkOpcode::NetworkStatusBroadcast);

    match msg.fields {
        TsbkFields::NetworkStatusBroadcast {
            wacn,
            system_id,
            channel,
        } => {
            assert_eq!(wacn, Wacn::new(0xBEE00));
            assert_eq!(system_id, SystemId::new(0x5F2));
            assert_eq!(channel, ChannelId(0x1234));
        }
        _ => panic!("expected NetworkStatusBroadcast"),
    }
}

#[test]
fn parser_parse_rfss_status_broadcast() {
    // last_block=1, opcode=0x3A -> 0b10_111010 = 0xBA
    // Payload layout (index 16..80):
    //   16..28: reserved (12 bits) = 0x000
    //   28..40: system_id (12 bits)
    //   40..48: rfss (8 bits)
    //   48..56: site (8 bits)
    //   56..72: channel (16 bits)
    //   72..80: service_class (8 bits)
    //
    // sysid=0x5F2, rfss=1, site=3, channel=0xABCD
    // byte[2]=0x00 (reserved top 8)
    // byte[3]: reserved[4] + sysid[4] = 0x05 (reserved=0000, sysid top 4=0101)
    // byte[4]: sysid[8] = 0xF2
    // byte[5]: rfss = 0x01
    // byte[6]: site = 0x03
    // byte[7]: channel high = 0xAB
    // byte[8]: channel low = 0xCD
    // byte[9]: service_class = 0x00
    let tsbk = make_tsbk(&[0xBA, 0x00, 0x00, 0x05, 0xF2, 0x01, 0x03, 0xAB, 0xCD, 0x00]);

    let msg = parse_tsbk(&tsbk).unwrap();
    match msg.fields {
        TsbkFields::RfssStatusBroadcast {
            system_id,
            rfss,
            site,
            channel,
        } => {
            assert_eq!(system_id, SystemId::new(0x5F2));
            assert_eq!(rfss, RfssId::new(1));
            assert_eq!(site, SiteId::new(3));
            assert_eq!(channel, ChannelId(0xABCD));
        }
        _ => panic!("expected RfssStatusBroadcast"),
    }
}

#[test]
fn parse_unknown_opcode_gracefully() {
    // opcode=0x07 is not in our table
    // last_block=1, opcode=0x07 -> 0b10_000111 = 0x87
    let tsbk = make_tsbk(&[0x87, 0x00, 0x00, 0x00, 0x00, 0x00, 0x00, 0x00, 0x00, 0x00]);

    let msg = parse_tsbk(&tsbk).unwrap();
    assert_eq!(msg.opcode, TsbkOpcode::Unknown(0x07));
    match msg.fields {
        TsbkFields::Unknown { opcode_value, .. } => {
            assert_eq!(opcode_value, 0x07);
        }
        _ => panic!("expected Unknown"),
    }
}

#[test]
fn parse_unimplemented_opcode() {
    // opcode=0x05 (UnitToUnitAnswerRequest) - recognized but no field parser
    // last_block=1, opcode=0x05 -> 0b10_000101 = 0x85
    let tsbk = make_tsbk(&[0x85, 0x00, 0xDE, 0xAD, 0xBE, 0xEF, 0x12, 0x34, 0x56, 0x78]);

    let msg = parse_tsbk(&tsbk).unwrap();
    assert_eq!(msg.opcode, TsbkOpcode::UnitToUnitAnswerRequest);
    match msg.fields {
        TsbkFields::Unimplemented {
            opcode,
            raw_payload,
        } => {
            assert_eq!(opcode, TsbkOpcode::UnitToUnitAnswerRequest);
            assert_eq!(
                raw_payload,
                [0xDE, 0xAD, 0xBE, 0xEF, 0x12, 0x34, 0x56, 0x78]
            );
        }
        _ => panic!("expected Unimplemented"),
    }
}

#[test]
fn reject_invalid_length() {
    assert!(matches!(
        parse_tsbk(&[0u8; 11]),
        Err(TsbkError::InvalidLength(11))
    ));
    assert!(matches!(
        parse_tsbk(&[0u8; 13]),
        Err(TsbkError::InvalidLength(13))
    ));
    assert!(matches!(parse_tsbk(&[]), Err(TsbkError::InvalidLength(0))));
}

#[test]
fn reject_invalid_crc() {
    let mut tsbk = make_tsbk(&[0x80, 0x00, 0x00, 0x00, 0x00, 0x00, 0x00, 0x00, 0x00, 0x00]);
    tsbk[5] ^= 0xFF; // corrupt data byte
    assert!(matches!(parse_tsbk(&tsbk), Err(TsbkError::Crc(_))));
}

#[test]
fn last_block_and_protected_flags() {
    // last_block=0, protected=1, opcode=0x00 -> 0b01_000000 = 0x40
    let tsbk = make_tsbk(&[0x40, 0x00, 0x00, 0x00, 0x00, 0x00, 0x00, 0x00, 0x00, 0x00]);

    let msg = parse_tsbk(&tsbk).unwrap();
    assert!(!msg.last_block);
    assert!(msg.protected);
}

#[test]
fn parse_iden_up_vu_fields() {
    // opcode=0x34 -> 0x34 | 0x80 = 0xB4
    // ident=0x3, bwvu=0x5, toff=0b1_0000000000101 (positive, 5),
    // spacing raw=100, base frequency raw=170_000_000.
    // Bits 16..24: 0x35
    // Bits 24..38: 0b10000000000101, bits 38..48: 0b0001100100
    //   24..32: 0b10000000 = 0x80
    //   32..40: 0b000101_00 = 0x14
    //   40..48: 0b01100100 = 0x64
    // Bits 48..80: 170_000_000 = 0x0A21FE80
    let tsbk = make_tsbk(&[0xB4, 0x00, 0x35, 0x80, 0x14, 0x64, 0x0A, 0x21, 0xFE, 0x80]);
    let msg = parse_tsbk(&tsbk).unwrap();
    assert_eq!(msg.opcode, TsbkOpcode::ChannelIdentifierUpdateVu);
    match msg.fields {
        TsbkFields::ChannelIdentifierUpdateVu {
            identifier,
            bandwidth_vu,
            transmit_offset,
            channel_spacing,
            base_frequency,
        } => {
            assert_eq!(identifier, ChannelIdentifier(3));
            assert_eq!(bandwidth_vu, 5);
            assert_eq!(channel_spacing, 12_500);
            assert_eq!(transmit_offset, 5 * 100 * 125);
            assert_eq!(base_frequency, 850_000_000);
        }
        _ => panic!("expected ChannelIdentifierUpdateVu"),
    }
}

#[test]
fn parse_iden_up_standard_negative_offset() {
    // opcode=0x3D -> 0xBD
    // ident=0x1 (bits 16..20), bandwidth raw=0x064 (9 bits, 20..29),
    // toff raw=0b0_00000011 (negative, 3) (29..38), spacing raw=0x050 (38..48),
    // base raw=0x00000010 (48..80).
    let ident: u64 = 0x1;
    let bw: u64 = 0x064;
    let toff: u64 = 0b000000011;
    let spac: u64 = 0x050;
    let base: u64 = 0x10;
    // Pack bits 16..80 as a 64-bit word, most significant first.
    let word = (ident << 60) | (bw << 51) | (toff << 42) | (spac << 32) | base;
    let b = word.to_be_bytes();
    let tsbk = make_tsbk(&[0xBD, 0x00, b[0], b[1], b[2], b[3], b[4], b[5], b[6], b[7]]);
    let msg = parse_tsbk(&tsbk).unwrap();
    match msg.fields {
        TsbkFields::ChannelIdentifierUpdateStandard {
            identifier,
            bandwidth,
            transmit_offset,
            channel_spacing,
            base_frequency,
        } => {
            assert_eq!(identifier, ChannelIdentifier(1));
            assert_eq!(bandwidth, 0x064);
            assert_eq!(transmit_offset, -3 * 250_000);
            assert_eq!(channel_spacing, 0x050 * 125);
            assert_eq!(base_frequency, 0x10 * 5);
        }
        _ => panic!("expected ChannelIdentifierUpdateStandard"),
    }
}

#[test]
fn tsbk_error_messages() {
    assert_eq!(
        TsbkError::InvalidLength(11).to_string(),
        "invalid TSBK data length: expected 12 bytes, got 11"
    );
    let mut tsbk = make_tsbk(&[0x80, 0x00, 0x00, 0x00, 0x00, 0x00, 0x00, 0x00, 0x00, 0x00]);
    tsbk[11] ^= 0x01;
    match parse_tsbk(&tsbk) {
        Err(TsbkError::Crc(e)) => {
            let text = TsbkError::Crc(e).to_string();
            assert!(text.starts_with("CRC-16 mismatch: transmitted 0x"));
            assert_eq!(text.len(), "CRC-16 mismatch: transmitted 0x0000, computed 0x0000".len());
        }
        _ => panic!("expected a CRC error"),
    }
}

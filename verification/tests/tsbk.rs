use trunker::p25::error::P25Error;
use trunker::p25::tsbk::{dibits_to_bytes, parse, parse_unchecked, TsbkOpcode, TsbkPayload};
use trunker::p25::types::Dibit;

fn make_tsbk_with_crc(data: &[u8; 10]) -> [u8; 12] {
    let crc = trunker::p25::crc::crc16(data);
    let mut tsbk = [0u8; 12];
    tsbk[..10].copy_from_slice(data);
    tsbk[10] = (crc >> 8) as u8;
    tsbk[11] = crc as u8;
    tsbk
}

#[test]
fn parse_header_fields() {
    // From p25.rs test: [0xB9, 0x01, ...]
    // 0xB9 = 0b10111001: last_block=1, protected=0, opcode=0x39
    let tsbk =
        make_tsbk_with_crc(&[0xB9, 0x01, 0xF0, 0x0F, 0xAA, 0x55, 0x00, 0xFF, 0xCC, 0x33]);
    let parsed = parse(&tsbk).unwrap();
    assert!(parsed.header.last_block);
    assert!(!parsed.header.protected);
    assert_eq!(parsed.header.opcode, TsbkOpcode::NetworkStatusBroadcast);
    assert_eq!(parsed.header.manufacturer_id, 0x01);
}

#[test]
fn parse_rejects_bad_crc() {
    let tsbk = [
        0xB9, 0x01, 0xF0, 0x0F, 0xAA, 0x55, 0x00, 0xFF, 0xCC, 0x33, 0xD7, 0xD7,
    ];
    let result = parse(&tsbk);
    assert!(result.is_err());
    match result.unwrap_err() {
        P25Error::CrcMismatch { expected, actual } => {
            assert_eq!(expected, 0xD7D7);
            assert_eq!(actual, trunker::p25::crc::crc16(&tsbk[..10]));
        }
        other => panic!("expected CrcMismatch, got {other:?}"),
    }
}

#[test]
fn parse_unchecked_skips_crc() {
    let tsbk = [
        0xB9, 0x01, 0xF0, 0x0F, 0xAA, 0x55, 0x00, 0xFF, 0xCC, 0x33, 0xD7, 0xD7,
    ];
    let parsed = parse_unchecked(&tsbk);
    assert!(parsed.header.last_block);
    assert_eq!(parsed.header.opcode, TsbkOpcode::NetworkStatusBroadcast);
}

#[test]
fn opcode_from_bits_known_values() {
    assert_eq!(
        TsbkOpcode::from_bits(0x00),
        TsbkOpcode::GroupVoiceChannelGrant
    );
    assert_eq!(
        TsbkOpcode::from_bits(0x02),
        TsbkOpcode::GroupVoiceChannelGrantUpdate
    );
    assert_eq!(TsbkOpcode::from_bits(0x20), TsbkOpcode::IdentifierUpdate);
    assert_eq!(TsbkOpcode::from_bits(0x34), TsbkOpcode::IdentifierUpdateVu);
    assert_eq!(
        TsbkOpcode::from_bits(0x39),
        TsbkOpcode::NetworkStatusBroadcast
    );
    assert_eq!(TsbkOpcode::from_bits(0x3A), TsbkOpcode::RfssStatusBroadcast);
    assert_eq!(
        TsbkOpcode::from_bits(0x3C),
        TsbkOpcode::AdjacentStatusBroadcast
    );
    assert_eq!(
        TsbkOpcode::from_bits(0x3D),
        TsbkOpcode::ChannelParametersUpdate
    );
}

#[test]
fn opcode_unknown_preserved() {
    assert_eq!(TsbkOpcode::from_bits(0x0F), TsbkOpcode::Unknown(0x0F));
    assert_eq!(TsbkOpcode::from_bits(0x0F).raw(), 0x0F);
}

#[test]
fn opcode_raw_roundtrip() {
    for code in 0..=0x3Fu8 {
        let opcode = TsbkOpcode::from_bits(code);
        assert_eq!(opcode.raw(), code);
    }
}

#[test]
fn tsbk_parse_group_voice_channel_grant() {
    // opcode 0x00, mfid 0x00
    let data: [u8; 10] = [
        0x80, // last_block=1, protected=0, opcode=0x00
        0x00, // mfid
        0x61, 0x23, // channel 0x6123
        0x00, 0x42, // talkgroup 66
        0x01, 0x02, 0x03, // source 0x010203
        0x00, // padding (will be overwritten by CRC)
    ];
    let tsbk = make_tsbk_with_crc(&data);
    let parsed = parse(&tsbk).unwrap();

    assert_eq!(parsed.header.opcode, TsbkOpcode::GroupVoiceChannelGrant);
    match parsed.payload {
        TsbkPayload::GroupVoiceChannelGrant {
            channel,
            talkgroup,
            source,
        } => {
            assert_eq!(channel.value(), 0x6123);
            assert_eq!(channel.identifier(), 6);
            assert_eq!(channel.index(), 0x123);
            assert_eq!(talkgroup.value(), 66);
            assert_eq!(source.value(), 0x010203);
        }
        other => panic!("expected GroupVoiceChannelGrant, got {other:?}"),
    }
}

#[test]
fn parse_group_voice_grant_update() {
    let data: [u8; 10] = [
        0x82, // last_block=1, protected=0, opcode=0x02
        0x00, 0x61, 0x23, // channel_a
        0x00, 0x42, // talkgroup_a
        0x71, 0x45, // channel_b
        0x00, 0x99, // talkgroup_b
    ];
    let tsbk = make_tsbk_with_crc(&data);
    let parsed = parse(&tsbk).unwrap();

    match parsed.payload {
        TsbkPayload::GroupVoiceChannelGrantUpdate {
            channel_a,
            talkgroup_a,
            channel_b,
            talkgroup_b,
        } => {
            assert_eq!(channel_a.value(), 0x6123);
            assert_eq!(talkgroup_a.value(), 66);
            assert_eq!(channel_b.value(), 0x7145);
            assert_eq!(talkgroup_b.value(), 0x0099);
        }
        other => panic!("expected GroupVoiceChannelGrantUpdate, got {other:?}"),
    }
}

#[test]
fn tsbk_parse_rfss_status_broadcast() {
    // From p25.rs test adjusted for our format
    let data: [u8; 10] = [
        0xBA, // last_block=1, protected=0, opcode=0x3A
        0x00, 0xCC, // area
        0x10, 0xAA, // system: 0x0AA
        0xE7, // rfss
        0x18, // site
        0xD5, 0x73, // channel
        0x51, // services
    ];
    let tsbk = make_tsbk_with_crc(&data);
    let parsed = parse(&tsbk).unwrap();

    match parsed.payload {
        TsbkPayload::RfssStatusBroadcast {
            system_id,
            rfss_id,
            site_id,
            channel,
        } => {
            assert_eq!(system_id.value(), 0x0AA);
            assert_eq!(rfss_id.value(), 0xE7);
            assert_eq!(site_id.value(), 0x18);
            assert_eq!(channel.value(), 0xD573);
            assert_eq!(channel.identifier(), 0xD);
            assert_eq!(channel.index(), 0x573);
        }
        other => panic!("expected RfssStatusBroadcast, got {other:?}"),
    }
}

#[test]
fn tsbk_parse_network_status_broadcast() {
    let data: [u8; 10] = [
        0xB9, // last_block=1, protected=0, opcode=0x39
        0x00, 0xCA, // area
        0xFC, 0x2B, // wacn hi
        0xCF, // wacn lo | sys hi
        0x5B, // sys lo
        0xDC, 0xE7, // channel
        0x51, // services
    ];
    let tsbk = make_tsbk_with_crc(&data);
    let parsed = parse(&tsbk).unwrap();

    match parsed.payload {
        TsbkPayload::NetworkStatusBroadcast {
            wacn,
            system_id,
            channel,
        } => {
            assert_eq!(wacn.value(), 0xFC2BC);
            assert_eq!(system_id.value(), 0xF5B);
            assert_eq!(channel.value(), 0xDCE7);
        }
        other => panic!("expected NetworkStatusBroadcast, got {other:?}"),
    }
}

#[test]
fn parse_adjacent_status_broadcast() {
    let data: [u8; 10] = [
        0xBC, // last_block=1, protected=0, opcode=0x3C
        0x00, 0xAA, // area
        0x1B, 0xCD, // system
        0x05, // rfss
        0x0A, // site
        0x61, 0x23, // channel
        0xFF, // services
    ];
    let tsbk = make_tsbk_with_crc(&data);
    let parsed = parse(&tsbk).unwrap();

    match parsed.payload {
        TsbkPayload::AdjacentStatusBroadcast {
            system_id,
            rfss_id,
            site_id,
            channel,
        } => {
            assert_eq!(system_id.value(), 0xBCD);
            assert_eq!(rfss_id.value(), 5);
            assert_eq!(site_id.value(), 10);
            assert_eq!(channel.value(), 0x6123);
        }
        other => panic!("expected AdjacentStatusBroadcast, got {other:?}"),
    }
}

#[test]
fn parse_unknown_opcode_captures_payload() {
    let data: [u8; 10] = [
        0x8F, // last_block=1, protected=0, opcode=0x0F (unknown)
        0x00, 0x11, 0x22, 0x33, 0x44, 0x55, 0x66, 0x77, 0x88,
    ];
    let tsbk = make_tsbk_with_crc(&data);
    let parsed = parse(&tsbk).unwrap();

    assert_eq!(parsed.header.opcode, TsbkOpcode::Unknown(0x0F));
    match parsed.payload {
        TsbkPayload::Unknown { data } => {
            assert_eq!(data, [0x11, 0x22, 0x33, 0x44, 0x55, 0x66, 0x77, 0x88]);
        }
        other => panic!("expected Unknown, got {other:?}"),
    }
}

#[test]
fn parse_protected_flag() {
    // opcode 0x00 with protected=1: byte 0 = 0b11000000 = 0xC0
    let data: [u8; 10] = [0xC0, 0x00, 0x00, 0x00, 0x00, 0x00, 0x00, 0x00, 0x00, 0x00];
    let tsbk = make_tsbk_with_crc(&data);
    let parsed = parse(&tsbk).unwrap();
    assert!(parsed.header.protected);
    assert!(parsed.header.last_block);
}

#[test]
fn dibits_to_bytes_correct() {
    let dibits: Vec<Dibit> = [
        0b00, 0b11, 0b00, 0b11, // 0x33
        0b10, 0b01, 0b10, 0b01, // 0x99
        0b11, 0b11, 0b11, 0b11, // 0xFF
    ]
    .iter()
    .flat_map(|&b| std::iter::once(Dibit::new(b)))
    .collect();

    // Need 48 dibits, pad with zeros
    let mut full = dibits;
    while full.len() < 48 {
        full.push(Dibit::new(0));
    }

    let bytes = dibits_to_bytes(&full).unwrap();
    assert_eq!(bytes[0], 0b00110011);
    assert_eq!(bytes[1], 0b10011001);
    assert_eq!(bytes[2], 0b11111111);
}

#[test]
fn dibits_to_bytes_wrong_length() {
    let short: Vec<Dibit> = vec![Dibit::new(0); 40];
    assert!(dibits_to_bytes(&short).is_err());
}

#[test]
fn identifier_update_parsing() {
    // From p25.rs test vector for ChannelParamsUpdate (opcode 0x3D):
    // id=6, bw=12500 Hz, offset=-45 MHz, spacing=6250 Hz, base=851006250 Hz
    // rx_freq(9) = 851006250 + 6250*9 = 851062500
    let data: [u8; 10] = [
        0xBD, // last_block=1, opcode=0x3D
        0x00, 0x63, 0x22, 0xD0, 0x32, 0x0A, 0x25, 0x10, 0xA2,
    ];
    let tsbk = make_tsbk_with_crc(&data);
    let parsed = parse(&tsbk).unwrap();

    match parsed.payload {
        TsbkPayload::IdentifierUpdate {
            identifier,
            bandwidth,
            transmit_offset,
            channel_spacing,
            base_frequency,
        } => {
            assert_eq!(identifier, 6);
            assert_eq!(bandwidth, 12_500);
            assert_eq!(transmit_offset, -45_000_000);
            assert_eq!(channel_spacing, 6_250);
            assert_eq!(base_frequency, 851_006_250);
            // Verify frequency calculation:
            // freq(9) = base_frequency + channel_spacing * 9
            let freq = base_frequency + (channel_spacing as u64) * 9;
            assert_eq!(freq, 851_062_500);
        }
        other => panic!("expected IdentifierUpdate, got {other:?}"),
    }
}

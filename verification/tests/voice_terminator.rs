use trunker::p25::coding::{golay, reed_solomon};
use trunker::p25::consts::{EXTRA_HEXBITS, LC_TERM_WORD_DIBITS};
use trunker::p25::types::{Dibit, Hexbit};
use trunker::p25::voice::control::{LinkControlOpcode, LINK_CONTROL_BYTES};
use trunker::p25::voice::terminator::VoiceLcTerminatorReceiver;

/// Convert bytes to hexbits (6 bits each, MSB first).
fn bytes_to_hexbits(bytes: &[u8], hexbits: &mut [Hexbit]) {
    let mut bit_accumulator: u32 = 0;
    let mut bits_available: usize = 0;
    let mut hexbit_index = 0;

    for &byte in bytes {
        bit_accumulator = (bit_accumulator << 8) | u32::from(byte);
        bits_available += 8;

        while bits_available >= 6 && hexbit_index < hexbits.len() {
            bits_available -= 6;
            hexbits[hexbit_index] =
                Hexbit::new(((bit_accumulator >> bits_available) & 0x3F) as u8);
            hexbit_index += 1;
        }
    }
}

/// Build all 144 dibits for a clean TDULC from given LC bytes.
fn build_tdulc_dibits(lc_bytes: &[u8; LINK_CONTROL_BYTES]) -> Vec<Dibit> {
    // Convert 9 bytes to 12 data hexbits.
    let mut hexbit_buf = [Hexbit::default(); EXTRA_HEXBITS];
    bytes_to_hexbits(lc_bytes, &mut hexbit_buf[..12]);

    // RS short encode to fill parity.
    reed_solomon::short::encode(&mut hexbit_buf);

    // Group hexbits in pairs, extended Golay encode each pair.
    let mut dibits = Vec::with_capacity(12 * LC_TERM_WORD_DIBITS);
    for pair in hexbit_buf.chunks(2) {
        let data_12 = (u16::from(pair[0].bits()) << 6) | u16::from(pair[1].bits());
        let coded = golay::extended::encode(data_12);
        for i in (0..12).rev() {
            dibits.push(Dibit::new(((coded >> (i * 2)) & 0x03) as u8));
        }
    }
    dibits
}

#[test]
fn decode_clean_tdulc() {
    let lc_bytes: [u8; LINK_CONTROL_BYTES] = [
        0x00, // opcode 0x00 = GroupVoiceTraffic
        0x00, // MFID
        0x00, // service options
        0x00, 0x00, 0x42, // talkgroup = 66
        0xDE, 0xAD, 0xBE, // source
    ];

    let dibits = build_tdulc_dibits(&lc_bytes);
    let mut recv = VoiceLcTerminatorReceiver::new();
    let mut result = None;

    for dibit in &dibits {
        if let Some(r) = recv.feed(*dibit) {
            result = Some(r);
        }
    }

    let lc = result.unwrap().unwrap();
    assert_eq!(lc.opcode(), LinkControlOpcode::GroupVoiceTraffic);
}

#[test]
fn decode_tdulc_with_bit_errors() {
    let lc_bytes: [u8; LINK_CONTROL_BYTES] =
        [0x00, 0x00, 0x00, 0x00, 0x00, 0x42, 0xDE, 0xAD, 0xBE];

    let mut dibits = build_tdulc_dibits(&lc_bytes);

    // Flip bits in a couple of Golay words.
    dibits[0] = Dibit::new(dibits[0].bits() ^ 0x03);
    dibits[12] = Dibit::new(dibits[12].bits() ^ 0x03);

    let mut recv = VoiceLcTerminatorReceiver::new();
    let mut result = None;

    for dibit in &dibits {
        if let Some(r) = recv.feed(*dibit) {
            result = Some(r);
        }
    }

    let lc = result.unwrap().unwrap();
    assert_eq!(lc.opcode(), LinkControlOpcode::GroupVoiceTraffic);
}

#[test]
fn is_done_after_all_words() {
    let lc_bytes = [0u8; LINK_CONTROL_BYTES];
    let dibits = build_tdulc_dibits(&lc_bytes);
    let mut recv = VoiceLcTerminatorReceiver::new();

    assert!(!recv.is_done());

    for dibit in &dibits {
        recv.feed(*dibit);
    }

    assert!(recv.is_done());
}

#[test]
fn correct_dibit_count() {
    // 12 words x 12 dibits = 144 dibits total
    let lc_bytes = [0u8; LINK_CONTROL_BYTES];
    let dibits = build_tdulc_dibits(&lc_bytes);
    assert_eq!(dibits.len(), 144);
}

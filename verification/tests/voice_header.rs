use trunker::p25::coding::{golay, reed_solomon};
use trunker::p25::consts::{HEADER_BYTES, HEADER_HEXBITS, HEADER_WORD_DIBITS};
use trunker::p25::types::{Dibit, Hexbit};
use trunker::p25::voice::crypto::CryptoAlgorithm;
use trunker::p25::voice::header::VoiceHeaderReceiver;

/// Convert bytes to hexbits (6 bits each, MSB first).
fn bytes_to_hexbits(bytes: &[u8], hexbits: &mut [Hexbit]) {
    let mut bit_accumulator: u32 = 0;
    let mut bits_available: usize = 0;
    let mut hexbit_index = 0;

    for &byte in bytes {
        bit_accumulator = (bit_accumulator << 8) | u32::from(byte);
        bits_available += 8;

        while bits_available >= 6 && hexbit_index < hexbits.len() {
            bits_available -= 6;
            hexbits[hexbit_index] =
                Hexbit::new(((bit_accumulator >> bits_available) & 0x3F) as u8);
            hexbit_index += 1;
        }
    }
}

/// Build all 324 dibits for a clean HDU from given header bytes.
fn build_hdu_dibits(header_bytes: &[u8; HEADER_BYTES]) -> Vec<Dibit> {
    // Convert 15 bytes to 20 data hexbits.
    let mut hexbit_buf = [Hexbit::default(); HEADER_HEXBITS];
    bytes_to_hexbits(header_bytes, &mut hexbit_buf[..20]);

    // RS long encode to fill parity.
    reed_solomon::long::encode(&mut hexbit_buf);

    // Golay-shortened encode each hexbit to 18-bit word, then to 9 dibits.
    let mut dibits = Vec::with_capacity(HEADER_HEXBITS * HEADER_WORD_DIBITS);
    for h in &hexbit_buf {
        let coded = golay::shortened::encode(h.bits());
        for i in (0..9).rev() {
            dibits.push(Dibit::new(((coded >> (i * 2)) & 0x03) as u8));
        }
    }
    dibits
}

#[test]
fn decode_clean_header() {
    let header_bytes: [u8; HEADER_BYTES] = [
        0x01, 0x02, 0x03, 0x04, 0x05, 0x06, 0x07, 0x08, 0x09, // MI
        0x00, // MFID
        0x80, // ALGID = Unencrypted
        0x00, 0x00, // KID
        0x00, 0x42, // TGID = 66
    ];

    let dibits = build_hdu_dibits(&header_bytes);
    let mut recv = VoiceHeaderReceiver::new();
    let mut result = None;

    for dibit in &dibits {
        if let Some(r) = recv.feed(*dibit) {
            result = Some(r);
        }
    }

    let fields = result.unwrap().unwrap();
    assert_eq!(fields.crypto_init(), &[1, 2, 3, 4, 5, 6, 7, 8, 9]);
    assert_eq!(fields.manufacturer_id(), 0);
    assert_eq!(fields.algorithm(), CryptoAlgorithm::Unencrypted);
    assert_eq!(fields.key_id(), 0);
    assert_eq!(fields.talkgroup().value(), 66);
}

#[test]
fn decode_encrypted_header() {
    let header_bytes: [u8; HEADER_BYTES] = [
        0xAA, 0xBB, 0xCC, 0xDD, 0xEE, 0xFF, 0x11, 0x22, 0x33, // MI
        0x00, // MFID
        0x84, // ALGID = AES-256
        0xDE, 0xAD, // KID
        0x01, 0x00, // TGID = 256
    ];

    let dibits = build_hdu_dibits(&header_bytes);
    let mut recv = VoiceHeaderReceiver::new();
    let mut result = None;

    for dibit in &dibits {
        if let Some(r) = recv.feed(*dibit) {
            result = Some(r);
        }
    }

    let fields = result.unwrap().unwrap();
    assert_eq!(fields.algorithm(), CryptoAlgorithm::Aes);
    assert_eq!(fields.key_id(), 0xDEAD);
    assert_eq!(fields.talkgroup().value(), 256);
}

#[test]
fn is_done_after_all_hexbits() {
    let header_bytes = [0u8; HEADER_BYTES];
    let dibits = build_hdu_dibits(&header_bytes);
    let mut recv = VoiceHeaderReceiver::new();

    assert!(!recv.is_done());

    for dibit in &dibits {
        recv.feed(*dibit);
    }

    assert!(recv.is_done());
}

#[test]
fn header_with_bit_errors() {
    let header_bytes: [u8; HEADER_BYTES] = [
        0x01, 0x02, 0x03, 0x04, 0x05, 0x06, 0x07, 0x08, 0x09,
        0x00, 0x80, 0x00, 0x00, 0x00, 0x42,
    ];

    let mut dibits = build_hdu_dibits(&header_bytes);

    // Flip some bits in a few Golay words (Golay corrects up to 3 bits).
    dibits[0] = Dibit::new(dibits[0].bits() ^ 0x03);
    dibits[9] = Dibit::new(dibits[9].bits() ^ 0x03);
    dibits[18] = Dibit::new(dibits[18].bits() ^ 0x03);

    let mut recv = VoiceHeaderReceiver::new();
    let mut result = None;

    for dibit in &dibits {
        if let Some(r) = recv.feed(*dibit) {
            result = Some(r);
        }
    }

    let fields = result.unwrap().unwrap();
    assert_eq!(fields.talkgroup().value(), 66);
}

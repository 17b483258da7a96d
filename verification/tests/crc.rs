use trunker::p25::crc::{crc16, validate_tsbk_crc, CrcError};

/// Helper: compute CRC for first 10 bytes and append it to make a valid 12-byte TSBK.
fn make_valid_tsbk(header_and_payload: &[u8; 10]) -> [u8; 12] {
    let mut data = [0u8; 12];
    data[..10].copy_from_slice(header_and_payload);
    let crc = crc16(&data[..10]);
    data[10] = (crc >> 8) as u8;
    data[11] = (crc & 0xFF) as u8;
    data
}

#[test]
fn valid_tsbk_crc_matches_stored() {
    let data = make_valid_tsbk(&[0x80, 0x00, 0x00, 0x01, 0x23, 0x45, 0x67, 0x89, 0xAB, 0xCD]);
    let computed = crc16(&data[..10]);
    let stored = ((data[10] as u16) << 8) | data[11] as u16;
    assert_eq!(computed, stored);
}

#[test]
fn validate_tsbk_crc_accepts_valid() {
    let data = make_valid_tsbk(&[0x80, 0x00, 0x00, 0x01, 0x23, 0x45, 0x67, 0x89, 0xAB, 0xCD]);
    assert!(validate_tsbk_crc(&data).is_ok());
}

#[test]
fn validate_tsbk_crc_rejects_bit_flip() {
    let mut data = make_valid_tsbk(&[0x80, 0x00, 0x00, 0x01, 0x23, 0x45, 0x67, 0x89, 0xAB, 0xCD]);
    data[5] ^= 0x01; // flip one bit in payload
    assert!(validate_tsbk_crc(&data).is_err());
}

#[test]
fn crc_error_contains_both_values() {
    let mut data = make_valid_tsbk(&[0x80, 0x00, 0x00, 0x01, 0x23, 0x45, 0x67, 0x89, 0xAB, 0xCD]);
    let original_transmitted = ((data[10] as u16) << 8) | data[11] as u16;
    data[5] ^= 0x01;
    match validate_tsbk_crc(&data) {
        Err(CrcError::Mismatch { expected, computed }) => {
            // Transmitted CRC bytes haven't changed
            assert_eq!(expected, original_transmitted);
            // Computed CRC over corrupted data should differ
            assert_ne!(computed, original_transmitted);
        }
        Ok(()) => panic!("expected CRC error"),
    }
}

#[test]
fn different_payloads_produce_different_crcs() {
    let crc_a = crc16(&[0x80, 0x00, 0x00, 0x00, 0x00, 0x00, 0x00, 0x00, 0x00, 0x00]);
    let crc_b = crc16(&[0x80, 0x00, 0x00, 0x00, 0x00, 0x00, 0x00, 0x00, 0x00, 0x01]);
    assert_ne!(crc_a, crc_b);
}

#[test]
fn crc_of_empty_input_is_final_xor() {
    assert_eq!(crc16(&[]), 0xFFFF);
}

#[test]
fn crc_register_is_linear() {
    let a = [0x80u8, 0x00, 0x00, 0x01, 0x23, 0x45, 0x67, 0x89, 0xAB, 0xCD];
    let b = [0x12u8, 0x34, 0x56, 0x78, 0x9A, 0xBC, 0xDE, 0xF0, 0x0F, 0x55];
    let mut x = [0u8; 10];
    for i in 0..10 {
        x[i] = a[i] ^ b[i];
    }
    let zeros = [0u8; 10];
    assert_eq!(crc16(&x) ^ crc16(&zeros), crc16(&a) ^ crc16(&b));
}

#[test]
fn crc_ignores_leading_zero_byte() {
    let data = [0x80u8, 0x00, 0x00, 0x01, 0x23, 0x45, 0x67, 0x89, 0xAB, 0xCD];
    let mut padded = vec![0u8];
    padded.extend_from_slice(&data);
    assert_eq!(crc16(&padded), crc16(&data));
    assert_eq!(crc16(&[0u8]), crc16(&[]));
}

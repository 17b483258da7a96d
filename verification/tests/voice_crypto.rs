use trunker::p25::voice::crypto::{CryptoAlgorithm, CryptoControlFields};

#[test]
fn crypto_control_fields_parsing() {
    let cc = CryptoControlFields::new([
        0, 0, 0, 1, 0, 0, 0, 2, 0,
        0x84,
        0xDE, 0xAD,
    ]);

    assert_eq!(cc.initialization_vector(), &[0, 0, 0, 1, 0, 0, 0, 2, 0]);
    assert_eq!(cc.algorithm(), CryptoAlgorithm::Aes);
    assert_eq!(cc.key_id(), 0xDEAD);
}

#[test]
fn crypto_control_unencrypted() {
    let cc = CryptoControlFields::new([0; 12]);
    assert_eq!(cc.algorithm(), CryptoAlgorithm::Accordion);
    assert_eq!(cc.key_id(), 0);

    let mut buf = [0u8; 12];
    buf[9] = 0x80;
    let cc = CryptoControlFields::new(buf);
    assert_eq!(cc.algorithm(), CryptoAlgorithm::Unencrypted);
}

#[test]
fn crypto_algorithm_known_values() {
    assert_eq!(CryptoAlgorithm::from_byte(0x00), CryptoAlgorithm::Accordion);
    assert_eq!(CryptoAlgorithm::from_byte(0x01), CryptoAlgorithm::BatonEven);
    assert_eq!(CryptoAlgorithm::from_byte(0x02), CryptoAlgorithm::Firefly);
    assert_eq!(CryptoAlgorithm::from_byte(0x03), CryptoAlgorithm::Mayfly);
    assert_eq!(CryptoAlgorithm::from_byte(0x04), CryptoAlgorithm::Saville);
    assert_eq!(CryptoAlgorithm::from_byte(0x41), CryptoAlgorithm::BatonOdd);
    assert_eq!(CryptoAlgorithm::from_byte(0x80), CryptoAlgorithm::Unencrypted);
    assert_eq!(CryptoAlgorithm::from_byte(0x81), CryptoAlgorithm::Des);
    assert_eq!(CryptoAlgorithm::from_byte(0x83), CryptoAlgorithm::TripleDes);
    assert_eq!(CryptoAlgorithm::from_byte(0x84), CryptoAlgorithm::Aes);
}

#[test]
fn crypto_algorithm_unknown() {
    assert_eq!(CryptoAlgorithm::from_byte(0xFF), CryptoAlgorithm::Unknown(0xFF));
    assert_eq!(CryptoAlgorithm::from_byte(0x42), CryptoAlgorithm::Unknown(0x42));
}

#[test]
fn crypto_control_display() {
    let cc = CryptoControlFields::new([
        0, 0, 0, 0, 0, 0, 0, 0, 0,
        0x80,
        0x00, 0x01,
    ]);
    assert_eq!(cc.to_string(), "algorithm=Unencrypted, key_id=0x0001");
}

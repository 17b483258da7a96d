use trunker::util::bits::{extract_u16, extract_u32, extract_u64, extract_u8};

#[test]
fn extract_byte_aligned_u8() {
    let data: [u8; 2] = [0xAB, 0xCD];
    assert_eq!(extract_u8(&data, 0, 8), 0xAB);
    assert_eq!(extract_u8(&data, 8, 16), 0xCD);
}

#[test]
fn extract_non_aligned_u8() {
    // 0xAB = 1010_1011, 0xCD = 1100_1101
    let data: [u8; 2] = [0xAB, 0xCD];
    // Bits 4..12 = 1011_1100 = 0xBC
    assert_eq!(extract_u8(&data, 4, 12), 0xBC);
}

#[test]
fn extract_u16_across_bytes() {
    let data: [u8; 4] = [0x12, 0x34, 0x56, 0x78];
    assert_eq!(extract_u16(&data, 0, 16), 0x1234);
    assert_eq!(extract_u16(&data, 16, 32), 0x5678);
}

#[test]
fn extract_u32_full() {
    let data: [u8; 4] = [0xDE, 0xAD, 0xBE, 0xEF];
    assert_eq!(extract_u32(&data, 0, 32), 0xDEADBEEF);
}

#[test]
fn extract_24_bit_into_u32() {
    let data: [u8; 4] = [0x00, 0x12, 0x34, 0x56];
    // 24 bits from position 8..32 = 0x123456
    assert_eq!(extract_u32(&data, 8, 32), 0x123456);
}

#[test]
fn extract_4_bit_nibble() {
    let data: [u8; 1] = [0xA5];
    assert_eq!(extract_u8(&data, 0, 4), 0xA);
    assert_eq!(extract_u8(&data, 4, 8), 0x5);
}

#[test]
fn extract_u64_across_all_bytes() {
    let data: [u8; 9] = [0xFF, 0x01, 0x23, 0x45, 0x67, 0x89, 0xAB, 0xCD, 0xEF];
    assert_eq!(extract_u64(&data, 8, 72), 0x0123_4567_89AB_CDEF);
    assert_eq!(extract_u64(&data, 4, 12), 0xF0);
}

use trunker::p25::consts::{FRAME_SYNC, FRAME_SYNC_BITS, SYMBOL_RATE, TSBK_BYTES, TSBK_DIBITS};

#[test]
fn symbol_rate_is_4800() {
    assert_eq!(SYMBOL_RATE, 4800);
}

#[test]
fn tsbk_bytes_matches_dibits() {
    // 48 dibits = 96 bits = 12 bytes
    assert_eq!(TSBK_DIBITS * 2 / 8, TSBK_BYTES);
}

#[test]
fn frame_sync_fits_in_48_bits() {
    assert!(FRAME_SYNC < (1u64 << FRAME_SYNC_BITS));
}

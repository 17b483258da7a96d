use trunker::vocoder::params::BaseParams;
use trunker::vocoder::scan::{ScanBits, ScanChunks, ScanSeparator};

#[test]
fn separator_with_16_harmonics() {
    let chunks: [u32; 8] = [0, 0, 0, 0, 0b11110110101, 0b00001111010, 0, 0];
    let params = BaseParams::new(32);
    assert_eq!(params.harmonic_count, 16);
    assert_eq!(params.band_count, 6);

    let sep = ScanSeparator::new(&chunks, &params);
    assert_eq!(sep.voiced, 0b111101);
    assert_eq!(sep.gain_index_part, 0b10);
    assert_eq!(sep.scanned, 0b10100001111010);
}

#[test]
fn separator_with_10_harmonics() {
    let chunks: [u32; 8] = [0, 0, 0, 0, 0b11110110101, 0b00001111010, 0, 0];
    let params = BaseParams::new(4);
    assert_eq!(params.harmonic_count, 10);
    assert_eq!(params.band_count, 4);

    let sep = ScanSeparator::new(&chunks, &params);
    assert_eq!(sep.voiced, 0b1111);
    assert_eq!(sep.gain_index_part, 0b01);
    assert_eq!(sep.scanned, 0b1010100001111010);
}

#[test]
fn scan_chunks_with_16_harmonics() {
    let chunks: [u32; 8] = [
        0b101,
        0b101010101010,
        0b101010101010,
        0b101010101010,
        0b11111111111,
        0b01010101010,
        0b10101010101,
        0b1010000,
    ];
    let params = BaseParams::new(32);
    assert_eq!(params.harmonic_count, 16);
    assert_eq!(params.band_count, 6);

    let sep = ScanSeparator::new(&chunks, &params);
    let mut iter = ScanChunks::new(&chunks, sep.scanned, &params);

    assert_eq!(iter.next().unwrap(), (0b101, 3));
    assert_eq!(iter.next().unwrap(), (0b101010101010, 12));
    assert_eq!(iter.next().unwrap(), (0b101010101010, 12));
    assert_eq!(iter.next().unwrap(), (0b101010101010, 12));
    assert_eq!(iter.next().unwrap(), (0b11101010101010, 14));
    assert_eq!(iter.next().unwrap(), (0b10101010101, 11));
    assert_eq!(iter.next().unwrap(), (0b101, 3));
    assert!(iter.next().is_none());
}

#[test]
fn scan_chunks_with_10_harmonics() {
    let chunks: [u32; 8] = [
        0b111111111101,
        0b101010101010,
        0b101010101010,
        0b101010101010,
        0b11111111111,
        0b01010101010,
        0b10101010101,
        0b1010000,
    ];
    let params = BaseParams::new(4);
    assert_eq!(params.harmonic_count, 10);
    assert_eq!(params.band_count, 4);

    let sep = ScanSeparator::new(&chunks, &params);
    let mut iter = ScanChunks::new(&chunks, sep.scanned, &params);

    assert_eq!(iter.next().unwrap(), (0b101, 3));
    assert_eq!(iter.next().unwrap(), (0b101010101010, 12));
    assert_eq!(iter.next().unwrap(), (0b101010101010, 12));
    assert_eq!(iter.next().unwrap(), (0b101010101010, 12));
    assert_eq!(iter.next().unwrap(), (0b1111101010101010, 16));
    assert_eq!(iter.next().unwrap(), (0b10101010101, 11));
    assert_eq!(iter.next().unwrap(), (0b101, 3));
    assert!(iter.next().is_none());
}

#[test]
fn scan_bits_with_16_harmonics() {
    let chunks: [u32; 8] = [
        0b111111111101,
        0b010101010101,
        0b010101010101,
        0b010101010101,
        0b11111111111,
        0b01010101010,
        0b10101010101,
        0b1010000,
    ];
    let params = BaseParams::new(32);
    assert_eq!(params.harmonic_count, 16);
    assert_eq!(params.band_count, 6);

    let sep = ScanSeparator::new(&chunks, &params);
    let bits: Vec<u32> = ScanBits::new(ScanChunks::new(&chunks, sep.scanned, &params)).collect();

    // 3 + 12 + 12 + 12 + 14 + 11 + 3 = 67 bits total
    assert_eq!(bits.len(), 67);

    assert_eq!(&bits[0..3], &[1, 0, 1]);
    assert_eq!(&bits[3..15], &[0, 1, 0, 1, 0, 1, 0, 1, 0, 1, 0, 1]);
    assert_eq!(&bits[15..27], &[0, 1, 0, 1, 0, 1, 0, 1, 0, 1, 0, 1]);
    assert_eq!(&bits[27..39], &[0, 1, 0, 1, 0, 1, 0, 1, 0, 1, 0, 1]);
    assert_eq!(&bits[39..53], &[1, 1, 1, 0, 1, 0, 1, 0, 1, 0, 1, 0, 1, 0]);
    assert_eq!(&bits[53..64], &[1, 0, 1, 0, 1, 0, 1, 0, 1, 0, 1]);
    assert_eq!(&bits[64..67], &[1, 0, 1]);
}

#[test]
fn scan_bits_with_10_harmonics() {
    let chunks: [u32; 8] = [
        0b111111111101,
        0b010101010101,
        0b010101010101,
        0b010101010101,
        0b11111111111,
        0b01010101010,
        0b10101010101,
        0b1010000,
    ];
    let params = BaseParams::new(4);
    assert_eq!(params.harmonic_count, 10);
    assert_eq!(params.band_count, 4);

    let sep = ScanSeparator::new(&chunks, &params);
    let bits: Vec<u32> = ScanBits::new(ScanChunks::new(&chunks, sep.scanned, &params)).collect();

    // 3 + 12 + 12 + 12 + 16 + 11 + 3 = 69 bits total
    assert_eq!(bits.len(), 69);

    assert_eq!(&bits[0..3], &[1, 0, 1]);
    assert_eq!(&bits[3..15], &[0, 1, 0, 1, 0, 1, 0, 1, 0, 1, 0, 1]);
    assert_eq!(&bits[15..27], &[0, 1, 0, 1, 0, 1, 0, 1, 0, 1, 0, 1]);
    assert_eq!(&bits[27..39], &[0, 1, 0, 1, 0, 1, 0, 1, 0, 1, 0, 1]);
    assert_eq!(&bits[39..55], &[1, 1, 1, 1, 1, 0, 1, 0, 1, 0, 1, 0, 1, 0, 1, 0]);
    assert_eq!(&bits[55..66], &[1, 0, 1, 0, 1, 0, 1, 0, 1, 0, 1]);
    assert_eq!(&bits[66..69], &[1, 0, 1]);
}

#[test]
fn scan_chunks_stays_exhausted() {
    let chunks: [u32; 8] = [0; 8];
    let params = BaseParams::new(32);
    let mut iter = ScanChunks::new(&chunks, 0, &params);
    for _ in 0..7 {
        assert!(iter.next().is_some());
    }
    assert!(iter.next().is_none());
    assert!(iter.next().is_none());
}

#[test]
fn base_params_large_period_caps_bands() {
    // L = floor(0.9254 * floor((2 * 207 + 81) / 8)) = floor(0.9254 * 61) = 56
    let params = BaseParams::new(207);
    assert_eq!(params.harmonic_count, 56);
    assert_eq!(params.band_count, 12);
}

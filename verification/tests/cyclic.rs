use trunker::p25::coding::cyclic::{decode, decode_base, encode, encode_base, rotate_17};

// ---- Base (17,9,5) code tests ----

#[test]
fn base_encode_known_vectors() {
    assert_eq!(encode_base(0b000000000), 0b000000000_00000000);
    assert_eq!(encode_base(0b111111111), 0b111111111_11111111);
    assert_eq!(encode_base(0b100000001), 0b100000001_10100101);
    assert_eq!(encode_base(0b000001001), 0b000001001_11001000);
    assert_eq!(encode_base(0b000001011), 0b000001011_10111010);
    assert_eq!(encode_base(0b000001010), 0b000001010_10000011);
    assert_eq!(encode_base(0b000001000), 0b000001000_11110001);
}

#[test]
fn base_exhaustive_round_trip() {
    for data in 0..1u32 << 9 {
        let data = data as u16;
        assert_eq!(
            decode_base(encode_base(data)),
            Some((data, 0)),
            "round-trip failed for data {data:#011b}"
        );
    }
}

#[test]
fn base_single_bit_correction_all_positions() {
    let data: u16 = 0b1010101;
    let encoded = encode_base(data);
    assert_eq!(encoded, 0b1010101_00100001);

    for bit in 0..17 {
        let corrupted = encoded ^ (1 << bit);
        assert_eq!(
            decode_base(corrupted),
            Some((data, 1)),
            "single-bit correction failed at position {bit}"
        );
    }
}

#[test]
fn base_two_bit_correction_exhaustive() {
    let data: u16 = 0b1010101;
    let encoded = encode_base(data);

    for i in 0..17u32 {
        for j in (i + 1)..17 {
            let corrupted = encoded ^ (1 << i) ^ (1 << j);
            assert_eq!(
                decode_base(corrupted),
                Some((data, 2)),
                "two-bit correction failed at positions {i},{j}"
            );
        }
    }
}

#[test]
fn rotate_17_full_cycle() {
    let original: u32 = 0b11100011001010101;
    let mut word = original;
    for _ in 0..17 {
        word = rotate_17(word);
    }
    assert_eq!(word, original);
}

#[test]
fn rotate_17_single_bit() {
    assert_eq!(rotate_17(0b00000000000000001), 0b10000000000000000);
    assert_eq!(rotate_17(0b10000000000000000), 0b01000000000000000);
    assert_eq!(rotate_17(0b00000000000000010), 0b00000000000000001);
}

// ---- Shortened (16,8,5) P25 code tests ----

#[test]
fn encode_known_vector() {
    let encoded = encode(0b10101011);
    assert_eq!(encoded, 0b10101011_01111011);
}

#[test]
fn exhaustive_round_trip() {
    for data in 0..=255u16 {
        let data = data as u8;
        assert_eq!(
            decode(encode(data)),
            Some((data, 0)),
            "round-trip failed for data {data:#010b}"
        );
    }
}

#[test]
fn single_bit_correction_all_positions() {
    let data: u8 = 0b10101011;
    let encoded = encode(data);

    for bit in 0..16 {
        let corrupted = encoded ^ (1 << bit);
        assert_eq!(
            decode(corrupted),
            Some((data, 1)),
            "single-bit correction failed at position {bit}"
        );
    }
}

#[test]
fn two_bit_correction_from_reference() {
    // Test vectors from p25.rs reference implementation
    let data: u8 = 0b10101011;
    let encoded = encode(data);
    assert_eq!(encoded, 0b10101011_01111011);

    assert_eq!(decode(encoded ^ 0b1000000000000001), Some((data, 2)));
    assert_eq!(decode(encoded ^ 0b0011000000000000), Some((data, 2)));
    assert_eq!(decode(encoded ^ 0b0010000000000001), Some((data, 2)));
    assert_eq!(decode(encoded ^ 0b0001000000000010), Some((data, 2)));
    assert_eq!(decode(encoded ^ 0b0000100000000100), Some((data, 2)));
    assert_eq!(decode(encoded ^ 0b0000010000001000), Some((data, 2)));
    assert_eq!(decode(encoded ^ 0b0000001000010000), Some((data, 2)));
    assert_eq!(decode(encoded ^ 0b0000000100100000), Some((data, 2)));
    assert_eq!(decode(encoded ^ 0b0000000011000000), Some((data, 2)));
    assert_eq!(decode(encoded ^ 0b0000000001010000), Some((data, 2)));
    assert_eq!(decode(encoded ^ 0b0000000010001000), Some((data, 2)));
    assert_eq!(decode(encoded ^ 0b0000000100000100), Some((data, 2)));
    assert_eq!(decode(encoded ^ 0b0000001000000010), Some((data, 2)));
    assert_eq!(decode(encoded ^ 0b0000010000000001), Some((data, 2)));
    assert_eq!(decode(encoded ^ 0b0100000000000100), Some((data, 2)));
    assert_eq!(decode(encoded ^ 0b1000000000001000), Some((data, 2)));
}

#[test]
fn two_bit_correction_exhaustive() {
    let data: u8 = 0b10101011;
    let encoded = encode(data);

    for i in 0..16u32 {
        for j in (i + 1)..16 {
            let corrupted = encoded ^ (1 << i) ^ (1 << j);
            assert_eq!(
                decode(corrupted),
                Some((data, 2)),
                "two-bit correction failed at positions {i},{j}"
            );
        }
    }
}

#[test]
fn encode_all_zeros() {
    assert_eq!(encode(0), 0);
}

#[test]
fn encode_all_ones() {
    let encoded = encode(0xFF);
    assert_eq!(decode(encoded), Some((0xFF, 0)));
}

#[test]
fn decode_all_zeros() {
    assert_eq!(decode(0), Some((0, 0)));
}

#[test]
fn shortened_two_bit_errors_corrected_everywhere() {
    for data in [0u8, 0x5A, 0xFF] {
        let encoded = encode(data);
        for i in 0..16 {
            for j in (i + 1)..16 {
                let corrupted = encoded ^ (1 << i) ^ (1 << j);
                assert_eq!(decode(corrupted), Some((data, 2)));
            }
        }
    }
}

#[test]
fn three_bit_error_can_miscorrect() {
    // Beyond two errors the decoder may return other data.
    assert_eq!(decode_base(encode_base(0) ^ 0b111), Some((64, 2)));
}

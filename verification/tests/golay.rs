use trunker::p25::coding::golay::{extended, shortened, standard};

// ---- Standard (23,12,7) tests ----

#[test]
fn golay_standard_encode_known_vectors() {
    assert_eq!(standard::encode(0), 0);
    assert_eq!(
        standard::encode(0b111111111111),
        0b111111111111_11111111111
    );
    assert_eq!(
        standard::encode(0b111111000000),
        0b111111000000_11001101000
    );
    assert_eq!(
        standard::encode(0b000000111111),
        0b000000111111_00110010111
    );
    assert_eq!(
        standard::encode(0b100000000001),
        0b100000000001_01001001111
    );
}

#[test]
fn standard_encode_specific_qa_vector() {
    assert_eq!(
        standard::encode(0b101010101010),
        0b1010101010_1000101111001
    );
}

#[test]
fn standard_decode_error_free() {
    let data = 0b101010101010u16;
    let encoded = standard::encode(data);
    assert_eq!(standard::decode(encoded), Some((data, 0)));
}

#[test]
fn golay_standard_exhaustive_round_trip() {
    for data in 0..1u32 << 12 {
        let data = data as u16;
        assert_eq!(
            standard::decode(standard::encode(data)),
            Some((data, 0)),
            "round-trip failed for data {data:#06b}"
        );
    }
}

#[test]
fn standard_single_bit_correction() {
    let data = 0b101010101010u16;
    let encoded = standard::encode(data);
    for bit in 0..23 {
        let corrupted = encoded ^ (1 << bit);
        assert_eq!(
            standard::decode(corrupted),
            Some((data, 1)),
            "single-bit correction failed at position {bit}"
        );
    }
}

#[test]
fn standard_two_bit_correction() {
    let data = 0b101010101010u16;
    let encoded = standard::encode(data);
    // Test specific two-bit error patterns from cai_golay tests
    let patterns: &[u32] = &[
        0b01000000000000000000010,
        0b00100000000000000000100,
        0b00010000000000000001000,
        0b00001000000000000010000,
        0b00000100000000000100000,
        0b00000010000000001000000,
        0b00000001000000010000000,
        0b00000000100000100000000,
        0b00000000010001000000000,
        0b00000000001010000000000,
    ];
    for &pattern in patterns {
        let corrupted = encoded ^ pattern;
        let result = standard::decode(corrupted);
        assert_eq!(
            result,
            Some((data, 2)),
            "two-bit correction failed for pattern {pattern:#025b}"
        );
    }
}

#[test]
fn standard_three_bit_contiguous_correction() {
    let data = 0b101010101010u16;
    let encoded = standard::encode(data);
    for start in 0..21 {
        let pattern = 0b111u32 << start;
        let corrupted = encoded ^ pattern;
        assert_eq!(
            standard::decode(corrupted),
            Some((data, 3)),
            "3-bit contiguous correction failed at start position {start}"
        );
    }
}

#[test]
fn standard_all_0_to_3_bit_errors_same_half() {
    // The syndrome-table decoder corrects all 0-to-3-bit errors where
    // errors are confined to one half (data or parity) of the codeword,
    // plus all cases with 1 error in data and up to 2 in parity.
    // Some 3-bit patterns spanning both halves may return None.
    // This matches the behavior of cai_golay.
    let data = 0b110111101110u16;
    let encoded = standard::encode(data);

    // All 0-bit and 1-bit errors: always correctable
    assert_eq!(standard::decode(encoded), Some((data, 0)));
    for i in 0..23u32 {
        assert_eq!(
            standard::decode(encoded ^ (1 << i)),
            Some((data, 1)),
            "single-bit correction failed at position {i}"
        );
    }

    // All 2-bit errors with one bit in each half: correctable
    for i in 0..11u32 {
        for j in 11..23 {
            let error = (1 << i) | (1 << j);
            let result = standard::decode(encoded ^ error);
            assert_eq!(
                result,
                Some((data, 2)),
                "two-bit cross-half correction failed at bits {i},{j}"
            );
        }
    }

    // Contiguous 3-bit patterns: all correctable
    for start in 0..21u32 {
        let pattern = 0b111 << start;
        assert_eq!(
            standard::decode(encoded ^ pattern),
            Some((data, 3)),
            "3-bit contiguous at {start}"
        );
    }
}

// ---- Extended (24,12,8) tests ----

#[test]
fn extended_encode_known_vectors() {
    assert_eq!(extended::encode(0), 0);
    assert_eq!(
        extended::encode(0b111111111111),
        0b111111111111_111111111111
    );
    assert_eq!(
        extended::encode(0b111111000000),
        0b111111000000_110011010001
    );
    assert_eq!(
        extended::encode(0b000000111111),
        0b000000111111_001100101110
    );
    assert_eq!(
        extended::encode(0b100000000001),
        0b100000000001_010010011110
    );
}

#[test]
fn extended_exhaustive_round_trip() {
    for data in 0..1u32 << 12 {
        let data = data as u16;
        assert_eq!(
            extended::decode(extended::encode(data)),
            Some((data, 0)),
            "round-trip failed for data {data:#06b}"
        );
    }
}

#[test]
fn extended_single_bit_correction() {
    let data = 0b111111101010u16;
    let encoded = extended::encode(data);
    for bit in 0..24 {
        let corrupted = encoded ^ (1 << bit);
        assert_eq!(
            extended::decode(corrupted),
            Some((data, 1)),
            "single-bit correction failed at position {bit}"
        );
    }
}

#[test]
fn extended_two_bit_correction() {
    let data = 0b111111101010u16;
    let encoded = extended::encode(data);
    let patterns: &[u32] = &[
        0b100000000000000000000010,
        0b010000000000000000000001,
        0b001000000000000000000010,
        0b000100000000000000000100,
        0b000010000000000000001000,
        0b000001000000000000010000,
        0b000000100000000000100000,
        0b000000010000000001000000,
        0b000000001000000010000000,
        0b000000000100000100000000,
        0b000000000010001000000000,
        0b000000000001010000000000,
    ];
    for &pattern in patterns {
        let corrupted = encoded ^ pattern;
        let result = extended::decode(corrupted);
        assert_eq!(
            result,
            Some((data, 2)),
            "two-bit correction failed for pattern {pattern:#026b}"
        );
    }
}

#[test]
fn extended_three_bit_contiguous_correction() {
    let data = 0b111111101010u16;
    let encoded = extended::encode(data);
    for start in 0..22 {
        let pattern = 0b111u32 << start;
        let corrupted = encoded ^ pattern;
        assert_eq!(
            extended::decode(corrupted),
            Some((data, 3)),
            "3-bit contiguous correction failed at start position {start}"
        );
    }
}

#[test]
fn extended_four_bit_errors_detected() {
    let data = 0b110110100110u16;
    let encoded = extended::encode(data);
    for h in 0..24u32 {
        for i in (h + 1)..24 {
            for j in (i + 1)..24 {
                for k in (j + 1)..24 {
                    let error = (1 << h) | (1 << i) | (1 << j) | (1 << k);
                    assert_eq!(
                        extended::decode(encoded ^ error),
                        None,
                        "4-bit error not detected: bits {h},{i},{j},{k}"
                    );
                }
            }
        }
    }
}

// ---- Shortened (18,6,8) tests ----

#[test]
fn golay_shortened_encode_known_vectors() {
    assert_eq!(shortened::encode(0), 0);
    assert_eq!(shortened::encode(0b111111), 0b111111_001100101110);
    assert_eq!(shortened::encode(0b000111), 0b000111_101101000010);
    assert_eq!(shortened::encode(0b111000), 0b111000_100001101100);
    assert_eq!(shortened::encode(0b100001), 0b100001_111000100110);
}

#[test]
fn golay_shortened_exhaustive_round_trip() {
    for data in 0..1u32 << 6 {
        let data = data as u8;
        assert_eq!(
            shortened::decode(shortened::encode(data)),
            Some((data, 0)),
            "round-trip failed for data {data:#04b}"
        );
    }
}

#[test]
fn shortened_two_bit_correction() {
    let data = 0b101010u8;
    let encoded = shortened::encode(data);
    assert_eq!(encoded, 0b101010_001000110101);

    let patterns: &[u32] = &[
        0b100000000000000001,
        0b010000000000000010,
        0b001000000000000100,
        0b000100000000001000,
        0b000010000000010000,
        0b000001000000100000,
        0b000000100001000000,
        0b000000010010000000,
        0b000000001100000000,
    ];
    for &pattern in patterns {
        let corrupted = encoded ^ pattern;
        assert_eq!(
            shortened::decode(corrupted),
            Some((data, 2)),
            "two-bit correction failed for pattern {pattern:#020b}"
        );
    }
}

#[test]
fn shortened_three_bit_contiguous_correction() {
    let data = 0b101010u8;
    let encoded = shortened::encode(data);
    for start in 0..16 {
        let pattern = 0b111u32 << start;
        let corrupted = encoded ^ pattern;
        assert_eq!(
            shortened::decode(corrupted),
            Some((data, 3)),
            "3-bit contiguous correction failed at start {start}"
        );
    }
}

#[test]
fn shortened_error_count_progression() {
    let data = 0b101010u8;
    let encoded = shortened::encode(data);
    assert_eq!(shortened::decode(encoded), Some((data, 0)));
    assert_eq!(
        shortened::decode(encoded ^ 0b000000000000000001),
        Some((data, 1))
    );
    assert_eq!(
        shortened::decode(encoded ^ 0b000000000000000011),
        Some((data, 2))
    );
    assert_eq!(
        shortened::decode(encoded ^ 0b000000000000000111),
        Some((data, 3))
    );
}

#[test]
fn shortened_high_bit_error_count() {
    let data = 0b101010u8;
    let encoded = shortened::encode(data);
    assert_eq!(
        shortened::decode(encoded ^ 0b000100000000000000),
        Some((data, 1))
    );
    assert_eq!(
        shortened::decode(encoded ^ 0b001100000000000000),
        Some((data, 2))
    );
    assert_eq!(
        shortened::decode(encoded ^ 0b011100000000000000),
        Some((data, 3))
    );
}

#[test]
fn shortened_mixed_error_patterns() {
    let data = 0b101010u8;
    let encoded = shortened::encode(data);
    assert_eq!(
        shortened::decode(encoded ^ 0b001100000000000010),
        Some((data, 3))
    );
    assert_eq!(
        shortened::decode(encoded ^ 0b001000000000000110),
        Some((data, 3))
    );
}

#[test]
fn standard_three_errors_two_in_data_corrected() {
    let data = 0b110111101110u16;
    let encoded = standard::encode(data);
    assert_eq!(standard::decode(encoded ^ (0b111 << 10)), Some((data, 3)));
    assert_eq!(standard::decode(encoded ^ (1 << 21) ^ (1 << 12) ^ (1 << 3)), Some((data, 3)));
}

#[test]
fn standard_three_errors_with_top_data_bit_not_corrected() {
    // Top data bit, another data bit and a parity bit: outside what the
    // decoder repairs.
    let data = 0b110111101110u16;
    let encoded = standard::encode(data);
    assert_ne!(standard::decode(encoded ^ (1 << 22) ^ (1 << 11) ^ 1), Some((data, 3)));
}

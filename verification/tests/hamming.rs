use trunker::p25::coding::hamming::{shortened, standard};

// ---- Standard (15,11,3) tests ----

#[test]
fn hamming_standard_encode_known_vectors() {
    assert_eq!(standard::encode(0), 0);
    assert_eq!(
        standard::encode(0b11111111111),
        0b11111111111_1111
    );
    assert_eq!(
        standard::encode(0b10101010101),
        0b10101010101_0101
    );
}

#[test]
fn hamming_standard_exhaustive_round_trip() {
    for data in 0..1u32 << 11 {
        let data = data as u16;
        assert_eq!(
            standard::decode(standard::encode(data)),
            Some((data, 0)),
            "round-trip failed for data {data:#013b}"
        );
    }
}

#[test]
fn standard_single_bit_correction_all_positions() {
    let data = 0b10101010101u16;
    let encoded = standard::encode(data);
    assert_eq!(encoded, 0b10101010101_0101);

    for bit in 0..15 {
        let corrupted = encoded ^ (1 << bit);
        assert_eq!(
            standard::decode(corrupted),
            Some((data, 1)),
            "single-bit correction failed at position {bit}"
        );
    }
}

#[test]
fn standard_two_bit_errors_detected_as_one() {
    // Two-bit errors are detected as single-bit errors with an
    // incorrect correction — this is expected Hamming behavior.
    let data = 0b10101010101u16;
    let encoded = standard::encode(data);

    for i in 0..15u32 {
        for j in (i + 1)..15 {
            let corrupted = encoded ^ (1 << i) ^ (1 << j);
            let result = standard::decode(corrupted);
            // Should decode (possibly to wrong data), not return None
            let (_, error_count) = result.unwrap();
            assert_eq!(error_count, 1, "two-bit error at {i},{j} not detected");
        }
    }
}

#[test]
fn standard_decode_all_zeros() {
    assert_eq!(standard::decode(0), Some((0, 0)));
}

#[test]
fn standard_decode_all_ones() {
    let encoded = standard::encode(0b11111111111);
    assert_eq!(encoded, 0b111111111111111);
    assert_eq!(standard::decode(encoded), Some((0b11111111111, 0)));
}

// ---- Shortened (10,6,3) tests ----

#[test]
fn hamming_shortened_encode_known_vectors() {
    assert_eq!(shortened::encode(0), 0);
    assert_eq!(shortened::encode(0b111111), 0b111111_0000);
    assert_eq!(shortened::encode(0b101010), 0b101010_0110);
}

#[test]
fn hamming_shortened_exhaustive_round_trip() {
    for data in 0..1u32 << 6 {
        let data = data as u8;
        assert_eq!(
            shortened::decode(shortened::encode(data)),
            Some((data, 0)),
            "round-trip failed for data {data:#08b}"
        );
    }
}

#[test]
fn shortened_single_bit_correction_all_positions() {
    let data = 0b101010u8;
    let encoded = shortened::encode(data);
    assert_eq!(encoded, 0b101010_0110);

    for bit in 0..10 {
        let corrupted = encoded ^ (1 << bit);
        assert_eq!(
            shortened::decode(corrupted),
            Some((data, 1)),
            "single-bit correction failed at position {bit}"
        );
    }
}

#[test]
fn shortened_two_bit_errors_never_silently_correct() {
    // Two-bit errors in the shortened (10,6,3) code either:
    // - Hit an uncorrectable syndrome (return None), or
    // - Miscorrect to a different codeword (return Some with error_count=1).
    // They should never return the original data with error_count=0.
    let data = 0b101010u8;
    let encoded = shortened::encode(data);
    let mut none_count = 0;

    for i in 0..10u32 {
        for j in (i + 1)..10 {
            let corrupted = encoded ^ (1 << i) ^ (1 << j);
            match shortened::decode(corrupted) {
                Some((decoded, error_count)) => {
                    // Miscorrection is expected Hamming behavior
                    assert_eq!(error_count, 1, "two-bit error at {i},{j}");
                    assert_ne!(
                        decoded, data,
                        "two-bit error at {i},{j} decoded to original data"
                    );
                }
                None => none_count += 1,
            }
        }
    }

    // The shortened code has 5 uncorrectable syndromes, so some
    // two-bit patterns should map to them.
    assert!(none_count > 0, "expected some uncorrectable two-bit patterns");
}

#[test]
fn shortened_decode_all_zeros() {
    assert_eq!(shortened::decode(0), Some((0, 0)));
}

#[test]
fn shortened_decode_all_ones_data() {
    let encoded = shortened::encode(0b111111);
    assert_eq!(encoded, 0b1111110000);
    assert_eq!(shortened::decode(encoded), Some((0b111111, 0)));
}

#[test]
fn shortened_locations_table_has_correct_zero_entries() {
    // The shortened code has 5 syndromes that map to zero (uncorrectable).
    // These are syndromes 0b0101, 0b0110, 0b1001, 0b1010, 0b1111.
    let zero_syndromes: Vec<usize> = shortened::location_table()
        .iter()
        .enumerate()
        .filter(|&(i, loc)| i > 0 && *loc == 0)
        .map(|(i, _)| i)
        .collect();
    assert_eq!(zero_syndromes, vec![0b0101, 0b0110, 0b1001, 0b1010, 0b1111]);
}

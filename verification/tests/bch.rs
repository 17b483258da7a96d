use trunker::p25::bch::{
    compute_generator_poly, compute_syndromes, decode, encode, exp, extract_data, gf_mul, log, FIELD_ORDER,
    GENERATOR_POLY, MAX_ERRORS,
};

// -- GF(2^6) field tests --

#[test]
fn field_primitive_element_order() {
    // α^63 should equal α^0 = 1 (the field has order 63).
    assert_eq!(exp(0), 1);
    assert_eq!(exp(63), 1, "α^63 should wrap to 1");
}

#[test]
fn field_all_elements_distinct() {
    let mut seen = [false; 64];
    for i in 0..FIELD_ORDER {
        let val = exp(i) as usize;
        assert!(!seen[val], "duplicate element at power {i}: {val}");
        assert!(val > 0 && val < 64, "out of range at power {i}: {val}");
        seen[val] = true;
    }
}

#[test]
fn field_log_exp_roundtrip() {
    for i in 0..FIELD_ORDER {
        let val = exp(i);
        assert_eq!(log(val as usize), i as u8, "log/exp mismatch at power {i}");
    }
}

#[test]
fn field_mul_identity() {
    for i in 1..64u8 {
        assert_eq!(gf_mul(i, 1), i, "x * 1 != x for {i}");
        assert_eq!(gf_mul(1, i), i, "1 * x != x for {i}");
    }
}

#[test]
fn field_mul_zero() {
    for i in 0..64u8 {
        assert_eq!(gf_mul(i, 0), 0, "x * 0 != 0 for {i}");
        assert_eq!(gf_mul(0, i), 0, "0 * x != 0 for {i}");
    }
}

fn gf_inv(a: u8) -> u8 {
    exp(FIELD_ORDER - log(a as usize) as usize)
}

#[test]
fn field_mul_inverse() {
    for i in 1..64u8 {
        let inv = gf_inv(i);
        assert_eq!(gf_mul(i, inv), 1, "{i} * inv({i}) != 1");
    }
}

#[test]
fn field_primitive_poly_check() {
    // α^6 = α + 1 = 3 (from primitive polynomial x^6 + x + 1).
    assert_eq!(exp(6), 3);
}

// -- Syndrome tests --

#[test]
fn syndromes_zero_for_zero_codeword() {
    let s = compute_syndromes(0);
    assert!(s.iter().all(|&v| v == 0), "zero word should have zero syndromes");
}

#[test]
fn syndromes_nonzero_for_single_bit_error() {
    let word = 1u64; // single bit set at position 0
    let s = compute_syndromes(word);
    assert!(!s.iter().all(|&v| v == 0), "single bit should produce nonzero syndromes");
}

// -- BCH decoder tests --

#[test]
fn decode_zero_codeword_no_errors() {
    let result = decode(0).expect("zero codeword should decode");
    assert_eq!(result.corrected, 0);
    assert_eq!(result.errors_corrected, 0);
}

#[test]
fn decode_corrects_single_bit_error() {
    // The all-zeros word is a valid codeword. Flip each bit
    // individually and verify correction.
    for bit in 0..FIELD_ORDER {
        let corrupted = 1u64 << bit;
        let result = decode(corrupted).unwrap_or_else(|| {
            panic!("should correct single bit error at position {bit}");
        });
        assert_eq!(result.corrected, 0, "bit {bit} not corrected");
        assert_eq!(result.errors_corrected, 1);
    }
}

#[test]
fn decode_corrects_two_bit_errors() {
    for a in 0..10 {
        for b in (a + 1)..15 {
            let corrupted = (1u64 << a) | (1u64 << b);
            let result = decode(corrupted).unwrap_or_else(|| {
                panic!("should correct 2-bit error at positions {a}, {b}");
            });
            assert_eq!(result.corrected, 0);
            assert_eq!(result.errors_corrected, 2);
        }
    }
}

#[test]
fn decode_corrects_eleven_bit_errors() {
    // Maximum correctable: 11 errors.
    let mut corrupted = 0u64;
    for bit in 0..MAX_ERRORS {
        corrupted |= 1u64 << bit;
    }
    let result = decode(corrupted).expect("should correct 11-bit error pattern");
    assert_eq!(result.corrected, 0);
    assert_eq!(result.errors_corrected, MAX_ERRORS);
}

#[test]
fn decode_corrects_eleven_scattered_errors() {
    // 11 errors spread across the codeword.
    let positions = [0, 5, 11, 17, 23, 29, 35, 41, 47, 53, 59];
    assert_eq!(positions.len(), MAX_ERRORS);
    let mut corrupted = 0u64;
    for &pos in &positions {
        corrupted |= 1u64 << pos;
    }
    let result = decode(corrupted).expect("should correct 11 scattered errors");
    assert_eq!(result.corrected, 0);
    assert_eq!(result.errors_corrected, MAX_ERRORS);
}

#[test]
fn decode_rejects_twelve_errors() {
    // 12 errors should exceed correction capability.
    let mut corrupted = 0u64;
    for bit in 0..12 {
        corrupted |= 1u64 << bit;
    }
    assert!(
        decode(corrupted).is_none(),
        "12 errors should be uncorrectable"
    );
}

#[test]
fn decode_preserves_valid_codeword() {
    // A valid codeword should pass through unchanged.
    let result = decode(0).unwrap();
    assert_eq!(result.errors_corrected, 0);
}

#[test]
fn extract_data_from_zero() {
    assert_eq!(extract_data(0), 0);
}

#[test]
fn extract_data_top_bits() {
    // Place data 0xABCD at bits 62-47.
    let word = 0xABCDu64 << 47;
    assert_eq!(extract_data(word), 0xABCD);
}

#[test]
fn decode_mask_strips_bit_63() {
    // Bit 63 is outside the BCH codeword; decode should ignore it.
    let with_extra = 1u64 << 63;
    let result = decode(with_extra).expect("bit 63 should be masked off");
    assert_eq!(result.corrected, 0);
    assert_eq!(result.errors_corrected, 0);
}

// -- Encoder tests --

#[test]
fn generator_poly_has_correct_degree() {
    let genpoly = compute_generator_poly();
    // Degree 47: bit 47 must be set, bits above 47 must be clear.
    assert!(genpoly >> 47 & 1 == 1, "leading coefficient missing");
    assert!(genpoly >> 48 == 0, "bits above degree 47 should be zero");
}

#[test]
fn encode_zero_data() {
    // Encoding zero data should produce the zero codeword.
    assert_eq!(encode(0), 0);
}

#[test]
fn encode_decode_roundtrip() {
    // Every encoded word should decode with zero errors.
    for data in [0u16, 1, 0x5FC7, 0x293A, 0xFFFF, 0x8000, 0x0001] {
        let codeword = encode(data);
        let result = decode(codeword).unwrap_or_else(|| {
            panic!("encoded data 0x{data:04X} should decode cleanly");
        });
        assert_eq!(result.errors_corrected, 0);
        assert_eq!(extract_data(result.corrected), data);
    }
}

#[test]
fn encode_produces_valid_syndromes() {
    // Syndromes of a valid codeword must all be zero.
    let codeword = encode(0x5FC7);
    let s = compute_syndromes(codeword);
    assert!(s.iter().all(|&v| v == 0), "encoded word should have zero syndromes");
}

#[test]
fn encode_then_corrupt_then_decode() {
    let data = 0x5FC7u16; // NAC=0x5FC, DUID=0x7
    let codeword = encode(data);

    // Corrupt 5 bits and verify correction.
    let corrupted = codeword ^ (1 << 0) ^ (1 << 15) ^ (1 << 30) ^ (1 << 45) ^ (1 << 60);
    let result = decode(corrupted).expect("5 errors should be correctable");
    assert_eq!(result.errors_corrected, 5);
    assert_eq!(extract_data(result.corrected), data);
}

#[test]
fn encode_decode_exhaustive_single_error() {
    let data = 0x293Au16;
    let codeword = encode(data);

    for bit in 0..FIELD_ORDER {
        let corrupted = codeword ^ (1u64 << bit);
        let result = decode(corrupted).unwrap_or_else(|| {
            panic!("single bit error at {bit} should be correctable");
        });
        assert_eq!(extract_data(result.corrected), data, "bit {bit}");
        assert_eq!(result.errors_corrected, 1);
    }
}

#[test]
fn generator_poly_matches_written_constant() {
    // The encoder divides by the written-out generator; it must be the
    // product of the minimal polynomials that compute_generator_poly builds.
    assert_eq!(compute_generator_poly(), GENERATOR_POLY);
    assert_eq!(GENERATOR_POLY, 0xCD93_0BDD_3B2B);
}

#[test]
fn encoded_words_have_zero_syndromes_for_all_unit_data() {
    for b in 0..16 {
        let c = encode(1u16 << b);
        assert!(compute_syndromes(c).iter().all(|&s| s == 0), "data bit {b}");
        let r = decode(c).unwrap();
        assert_eq!(r.corrected, c);
        assert_eq!(r.errors_corrected, 0);
        assert_eq!(extract_data(c), 1u16 << b);
    }
}

#[test]
fn decoded_words_are_encodings_of_their_data() {
    for &data in &[0u16, 1, 0x293, 0xBEEF, 0xFFFF, 0x8001] {
        let c = encode(data);
        for &flips in &[0u64, 1 << 3, (1 << 5) | (1 << 40), 0x1F << 20, 0x7FF << 50] {
            if let Some(r) = decode(c ^ flips) {
                assert_eq!(encode(extract_data(r.corrected)), r.corrected, "data {data:#x} flips {flips:#x}");
            }
        }
    }
    // A word far from every codeword either fails or decodes to an encoding.
    for w in [0x1234_5678_9ABC_DEF0u64, 0x7FFF_0000_FFFF_0000, 0x5555_5555_5555_5555] {
        if let Some(r) = decode(w) {
            assert_eq!(encode(extract_data(r.corrected)), r.corrected);
        }
    }
}

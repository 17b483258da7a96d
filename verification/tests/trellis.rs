use trunker::p25::trellis::{
    constellation_pairs, decode, hamming_distance, pack_pair, pair_index_table, TrellisEncoder,
};
use trunker::p25::types::Dibit;

#[test]
fn constellation_pairs_table_has_16_entries() {
    assert_eq!(constellation_pairs().len(), 16);
}

#[test]
fn pair_index_table_has_valid_indices() {
    for row in &pair_index_table() {
        for &idx in row {
            assert!(idx < 16, "pair index {idx} out of range");
        }
    }
}

#[test]
fn encoder_known_sequence() {
    // Test vector from p25.rs reference: encode [0,0,1,1,2,2,3,3]
    let mut encoder = TrellisEncoder::new();

    // State 0 -> 0: PAIR_INDEX[0][0]=0, pair=(00,10)
    assert_eq!(
        encoder.encode(Dibit::new(0b00)),
        (Dibit::new(0b00), Dibit::new(0b10))
    );
    // State 0 -> 0: PAIR_INDEX[0][0]=0, pair=(00,10)
    assert_eq!(
        encoder.encode(Dibit::new(0b00)),
        (Dibit::new(0b00), Dibit::new(0b10))
    );
    // State 0 -> 1: PAIR_INDEX[0][1]=15, pair=(11,00)
    assert_eq!(
        encoder.encode(Dibit::new(0b01)),
        (Dibit::new(0b11), Dibit::new(0b00))
    );
    // State 1 -> 1: PAIR_INDEX[1][1]=11, pair=(00,00)
    assert_eq!(
        encoder.encode(Dibit::new(0b01)),
        (Dibit::new(0b00), Dibit::new(0b00))
    );
    // State 1 -> 2: PAIR_INDEX[1][2]=8, pair=(11,01)
    assert_eq!(
        encoder.encode(Dibit::new(0b10)),
        (Dibit::new(0b11), Dibit::new(0b01))
    );
    // State 2 -> 2: PAIR_INDEX[2][2]=1, pair=(10,10)
    assert_eq!(
        encoder.encode(Dibit::new(0b10)),
        (Dibit::new(0b10), Dibit::new(0b10))
    );
    // State 2 -> 3: PAIR_INDEX[2][3]=14, pair=(01,00)
    assert_eq!(
        encoder.encode(Dibit::new(0b11)),
        (Dibit::new(0b01), Dibit::new(0b00))
    );
    // State 3 -> 3: PAIR_INDEX[3][3]=10, pair=(10,00)
    assert_eq!(
        encoder.encode(Dibit::new(0b11)),
        (Dibit::new(0b10), Dibit::new(0b00))
    );
}

#[test]
fn encode_then_decode_clean_signal() {
    let input: Vec<Dibit> = [1, 2, 2, 2, 2, 1, 3, 3, 0, 2]
        .iter()
        .map(|&b| Dibit::new(b))
        .collect();

    let mut encoder = TrellisEncoder::new();
    let encoded = encoder.encode_all(&input);

    // 10 input + 1 flush = 11 pairs = 22 dibits
    assert_eq!(encoded.len(), 22);

    // Pad to 98 dibits for the decoder (fill remaining with
    // encoded zeros from state 0)
    let mut padded = encoded.clone();
    let mut pad_encoder = TrellisEncoder::new();
    // Encoder state after encoding input+flush is 0 (flush goes to 0)
    // We need 49 - 11 = 38 more pairs = 38 input dibits + 0 extra flush
    // But total must be exactly 98 dibits = 49 pairs
    // We already have 11 pairs (22 dibits), need 38 more pairs
    for _ in 0..37 {
        let (hi, lo) = pad_encoder.encode(Dibit::new(0b00));
        padded.push(hi);
        padded.push(lo);
    }
    let (hi, lo) = pad_encoder.flush();
    padded.push(hi);
    padded.push(lo);

    assert_eq!(padded.len(), 98);

    let decoded = decode(&padded).unwrap();
    assert_eq!(decoded.len(), 48);

    // First 10 should match our input
    for (i, &d) in input.iter().enumerate() {
        assert_eq!(
            decoded[i].bits(),
            d.bits(),
            "mismatch at position {i}: expected {}, got {}",
            d.bits(),
            decoded[i].bits()
        );
    }
}

#[test]
fn encode_decode_roundtrip_48_dibits() {
    // Create a full 48-dibit payload
    let input: Vec<Dibit> = (0..48).map(|i| Dibit::new((i % 4) as u8)).collect();

    let mut encoder = TrellisEncoder::new();
    let encoded = encoder.encode_all(&input);

    // 48 + 1 flush = 49 pairs = 98 dibits
    assert_eq!(encoded.len(), 98);

    let decoded = decode(&encoded).unwrap();
    assert_eq!(decoded.len(), 48);

    for (i, (&orig, &dec)) in input.iter().zip(decoded.iter()).enumerate() {
        assert_eq!(orig.bits(), dec.bits(), "mismatch at position {i}");
    }
}

#[test]
fn decode_with_single_bit_errors() {
    let input: Vec<Dibit> = (0..48).map(|i| Dibit::new((i % 4) as u8)).collect();

    let mut encoder = TrellisEncoder::new();
    let mut encoded = encoder.encode_all(&input);

    // Inject single-bit errors in a few pairs
    encoded[2] = Dibit::new(encoded[2].bits() ^ 0b01);
    encoded[10] = Dibit::new(encoded[10].bits() ^ 0b10);
    encoded[20] = Dibit::new(encoded[20].bits() ^ 0b01);

    let decoded = decode(&encoded).unwrap();
    assert_eq!(decoded.len(), 48);

    for (i, (&orig, &dec)) in input.iter().zip(decoded.iter()).enumerate() {
        assert_eq!(
            orig.bits(),
            dec.bits(),
            "mismatch at position {i} after error injection"
        );
    }
}

#[test]
fn decode_wrong_length_returns_error() {
    let short: Vec<Dibit> = (0..96).map(|_| Dibit::new(0)).collect();
    assert!(decode(&short).is_err());

    let long: Vec<Dibit> = (0..100).map(|_| Dibit::new(0)).collect();
    assert!(decode(&long).is_err());
}

#[test]
fn hamming_distance_correctness() {
    assert_eq!(hamming_distance(0b0000, 0b0000), 0);
    assert_eq!(hamming_distance(0b1111, 0b0000), 4);
    assert_eq!(hamming_distance(0b1010, 0b0101), 4);
    assert_eq!(hamming_distance(0b1100, 0b1010), 2);
    assert_eq!(hamming_distance(0b0001, 0b0000), 1);
}

#[test]
fn pack_pair_correctness() {
    assert_eq!(pack_pair(Dibit::new(0b11), Dibit::new(0b01)), 0b1101);
    assert_eq!(pack_pair(Dibit::new(0b00), Dibit::new(0b00)), 0b0000);
    assert_eq!(pack_pair(Dibit::new(0b10), Dibit::new(0b10)), 0b1010);
}

#[test]
fn encode_decode_all_zeros() {
    let input: Vec<Dibit> = vec![Dibit::new(0); 48];
    let mut encoder = TrellisEncoder::new();
    let encoded = encoder.encode_all(&input);
    assert_eq!(encoded.len(), 98);

    let decoded = decode(&encoded).unwrap();
    for (i, d) in decoded.iter().enumerate() {
        assert_eq!(d.bits(), 0, "non-zero at position {i}");
    }
}

#[test]
fn encode_decode_all_threes() {
    let input: Vec<Dibit> = vec![Dibit::new(3); 48];
    let mut encoder = TrellisEncoder::new();
    let encoded = encoder.encode_all(&input);
    assert_eq!(encoded.len(), 98);

    let decoded = decode(&encoded).unwrap();
    for (i, d) in decoded.iter().enumerate() {
        assert_eq!(d.bits(), 3, "mismatch at position {i}");
    }
}

#[test]
fn decode_corrects_every_single_bit_error() {
    let input: Vec<Dibit> = (0..48).map(|i| Dibit::new(((i * 7 + 3) % 4) as u8)).collect();
    let mut encoder = TrellisEncoder::new();
    let encoded = encoder.encode_all(&input);
    assert_eq!(encoded.len(), 98);
    for j in 0..98 {
        for m in [1u8, 2u8] {
            let mut corrupted = encoded.clone();
            corrupted[j] = Dibit::new(corrupted[j].bits() ^ m);
            let decoded = decode(&corrupted).unwrap();
            for i in 0..48 {
                assert_eq!(decoded[i].bits(), input[i].bits(), "error at dibit {j}, mask {m}");
            }
        }
    }
}

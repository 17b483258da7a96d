use trunker::p25::nid::{decode_nid, dibits_to_u64, DataUnit};
use trunker::p25::types::{Dibit, Nac};

/// Build 32 dibits from a 64-bit word.
fn u64_to_dibits(word: u64) -> Vec<Dibit> {
    (0..32)
        .map(|i| {
            let shift = 62 - i * 2;
            Dibit::new(((word >> shift) & 0x03) as u8)
        })
        .collect()
}

/// Build a NID word with given NAC and DUID, properly BCH-encoded.
fn make_nid_word(nac: u16, duid: u8) -> u64 {
    let data = ((nac & 0x0FFF) << 4) | u16::from(duid & 0x0F);
    let bch_word = trunker::p25::bch::encode(data);
    let shifted = bch_word << 1;
    // Set overall parity bit so the 64-bit word has even popcount.
    if shifted.count_ones() % 2 != 0 {
        shifted | 1
    } else {
        shifted
    }
}

#[test]
fn decode_tsdu_duid() {
    let word = make_nid_word(0x293, 0x7);
    let dibits = u64_to_dibits(word);
    let nid = decode_nid(&dibits).unwrap();

    assert_eq!(nid.access_code, Nac::new(0x293));
    assert!(nid.data_unit.is_trunking_signaling());
    assert!(nid.parity_ok);
}

#[test]
fn all_duid_values_parse() {
    let known_duids: [(u8, DataUnit); 7] = [
        (0x0, DataUnit::VoiceHeader),
        (0x3, DataUnit::VoiceSimpleTerminator),
        (0x5, DataUnit::VoiceLcFrameGroup),
        (0x7, DataUnit::TrunkingSignaling),
        (0xA, DataUnit::VoiceCcFrameGroup),
        (0xC, DataUnit::DataPacket),
        (0xF, DataUnit::VoiceLcTerminator),
    ];

    for (bits, expected) in &known_duids {
        let du = DataUnit::from_bits(*bits);
        assert_eq!(du, *expected, "DUID 0x{bits:X}");
        assert_eq!(du.to_bits(), *bits);
    }
}

#[test]
fn unknown_duid_preserved() {
    let du = DataUnit::from_bits(0x1);
    assert_eq!(du, DataUnit::Unknown(0x1));
    assert_eq!(du.to_bits(), 0x1);
    assert!(!du.is_trunking_signaling());
}

#[test]
fn special_nac_values() {
    for nac_val in [0x293u16, 0xF7E, 0xF7F] {
        let word = make_nid_word(nac_val, 0x7);
        let dibits = u64_to_dibits(word);
        let nid = decode_nid(&dibits).unwrap();
        assert_eq!(nid.access_code.value(), nac_val);
    }
}

#[test]
fn bch_corrects_single_bit_error() {
    let word = make_nid_word(0x293, 0x7);
    let mut dibits = u64_to_dibits(word);

    // Flip one bit — BCH should correct it.
    let flipped = dibits[15].bits() ^ 0x01;
    dibits[15] = Dibit::new(flipped);

    let nid = decode_nid(&dibits).unwrap();
    assert!(nid.parity_ok, "BCH should correct single-bit error");
    assert_eq!(nid.access_code, Nac::new(0x293));
    assert!(nid.data_unit.is_trunking_signaling());
}

#[test]
fn bch_rejects_uncorrectable_errors() {
    let word = make_nid_word(0x293, 0x7);
    let mut dibits = u64_to_dibits(word);

    // Flip 12 bits (exceeds BCH correction capability of 11).
    for i in 16..22 {
        dibits[i] = Dibit::new(dibits[i].bits() ^ 0x03);
    }

    let nid = decode_nid(&dibits).unwrap();
    assert!(!nid.parity_ok, "12 errors should exceed BCH capability");
}

#[test]
fn wrong_dibit_count_returns_error() {
    let short: Vec<Dibit> = (0..20).map(|_| Dibit::new(0)).collect();
    let result = decode_nid(&short);
    assert!(result.is_err());
}

#[test]
fn dibits_to_u64_roundtrip() {
    let original: u64 = 0xA293_7000_0000_0001;
    let dibits = u64_to_dibits(original);
    let recovered = dibits_to_u64(&dibits);
    assert_eq!(recovered, original);
}

#[test]
fn nac_extraction_all_bits() {
    // NAC = 0xFFF (all 12 bits set)
    let word = make_nid_word(0xFFF, 0x0);
    let dibits = u64_to_dibits(word);
    let nid = decode_nid(&dibits).unwrap();
    assert_eq!(nid.access_code.value(), 0x0FFF);
}

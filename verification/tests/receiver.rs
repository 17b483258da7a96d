use trunker::p25::bch;
use trunker::p25::consts::CODING_DIBITS;
use trunker::p25::crc::crc16;
use trunker::p25::error::P25Error;
use trunker::p25::nid::{DataUnit, NidIntegrityPolicy};
use trunker::p25::receiver::{DataUnitReceiver, ReceiverEvent, State};
use trunker::p25::trellis::TrellisEncoder;
use trunker::p25::tsbk::TsbkOpcode;
use trunker::p25::types::{Dibit, Nac};

/// Interleave permutation table (from p25.rs reference).
/// `transmitted[i] = original[INTERLEAVE_TABLE[i]]` — output position i
/// gets the value from input position INTERLEAVE_TABLE[i].
const INTERLEAVE_TABLE: [usize; CODING_DIBITS] = [
    0, 1, 8, 9, 16, 17, 24, 25, 32, 33, 40, 41, 48, 49, 56, 57, 64, 65, 72, 73, 80, 81, 88, 89,
    96, 97, 2, 3, 10, 11, 18, 19, 26, 27, 34, 35, 42, 43, 50, 51, 58, 59, 66, 67, 74, 75, 82,
    83, 90, 91, 4, 5, 12, 13, 20, 21, 28, 29, 36, 37, 44, 45, 52, 53, 60, 61, 68, 69, 76, 77,
    84, 85, 92, 93, 6, 7, 14, 15, 22, 23, 30, 31, 38, 39, 46, 47, 54, 55, 62, 63, 70, 71, 78,
    79, 86, 87, 94, 95,
];

/// Interleave 98 coded dibits for test construction.
fn interleave_for_test(original: &[Dibit; CODING_DIBITS]) -> [Dibit; CODING_DIBITS] {
    let mut output = [Dibit::new(0); CODING_DIBITS];
    for (output_index, &input_index) in INTERLEAVE_TABLE.iter().enumerate() {
        output[output_index] = original[input_index];
    }
    output
}

/// Build 32 NID dibits from a 64-bit word.
fn u64_to_dibits(word: u64) -> Vec<Dibit> {
    (0..32)
        .map(|i| {
            let shift = 62 - i * 2;
            Dibit::new(((word >> shift) & 0x03) as u8)
        })
        .collect()
}

/// Build a NID word with given NAC and DUID: BCH-encoded, with the
/// overall parity bit set so the 64-bit word has even popcount.
fn make_nid_word(nac: u16, duid: u8) -> u64 {
    let data = ((nac & 0x0FFF) << 4) | u16::from(duid & 0x0F);
    let shifted = bch::encode(data) << 1;
    if shifted.count_ones() % 2 != 0 {
        shifted | 1
    } else {
        shifted
    }
}

/// Build NID dibits for a TSDU with the given NAC.
fn make_tsdu_nid_dibits(nac: u16) -> Vec<Dibit> {
    u64_to_dibits(make_nid_word(nac, 0x7))
}

/// Build a TSBK byte payload with valid CRC, then trellis-encode
/// and interleave it to produce 98 coded dibits.
fn make_coded_tsbk(opcode_byte: u8, payload: &[u8; 8]) -> Vec<Dibit> {
    let mut data = [0u8; 10];
    data[0] = opcode_byte;
    data[1] = 0x00; // manufacturer ID
    data[2..10].copy_from_slice(payload);

    let crc_val = crc16(&data);
    let mut tsbk_bytes = [0u8; 12];
    tsbk_bytes[..10].copy_from_slice(&data);
    tsbk_bytes[10] = (crc_val >> 8) as u8;
    tsbk_bytes[11] = crc_val as u8;

    // Convert bytes to 48 dibits.
    let dibits: Vec<Dibit> = tsbk_bytes
        .iter()
        .flat_map(|&byte| {
            [
                Dibit::new((byte >> 6) & 0x03),
                Dibit::new((byte >> 4) & 0x03),
                Dibit::new((byte >> 2) & 0x03),
                Dibit::new(byte & 0x03),
            ]
        })
        .collect();

    // Trellis encode (48 data dibits + flush = 98 coded dibits).
    let mut encoder = TrellisEncoder::new();
    let encoded = encoder.encode_all(&dibits);
    assert_eq!(encoded.len(), CODING_DIBITS);

    // Interleave for transmission order.
    let encoded_array: [Dibit; CODING_DIBITS] = encoded.try_into().unwrap();
    let interleaved = interleave_for_test(&encoded_array);
    interleaved.to_vec()
}

#[test]
fn new_receiver_starts_in_collect_nid() {
    let receiver = DataUnitReceiver::default();
    assert!(!receiver.is_done());
    assert!(matches!(receiver.state(), State::CollectNid));
}

#[test]
fn nid_decode_produces_event() {
    let mut receiver = DataUnitReceiver::default();
    let nid_dibits = make_tsdu_nid_dibits(0x293);

    let mut events = Vec::new();
    for dibit in &nid_dibits {
        if let Some(event) = receiver.feed(*dibit) {
            events.push(event);
        }
    }

    assert_eq!(events.len(), 1);
    match &events[0] {
        ReceiverEvent::Nid(nid) => {
            assert_eq!(nid.access_code, Nac::new(0x293));
            assert!(nid.data_unit.is_trunking_signaling());
        }
        other => panic!("expected Nid event, got {other:?}"),
    }
}

#[test]
fn hdu_nid_transitions_to_decode_header() {
    let mut receiver = DataUnitReceiver::default();
    // Voice header (DUID = 0x0)
    let nid_dibits = u64_to_dibits(make_nid_word(0x293, 0x0));

    for dibit in &nid_dibits {
        receiver.feed(*dibit);
    }

    assert!(!receiver.is_done());
    assert!(matches!(receiver.state(), State::DecodeHeader));
    assert!(receiver.has_header_receiver());
}

#[test]
fn tdulc_nid_transitions_to_decode_lc_terminator() {
    let mut receiver = DataUnitReceiver::default();
    // TDULC (DUID = 0xF)
    let nid_dibits = u64_to_dibits(make_nid_word(0x293, 0xF));

    for dibit in &nid_dibits {
        receiver.feed(*dibit);
    }

    assert!(!receiver.is_done());
    assert!(matches!(receiver.state(), State::DecodeLcTerminator));
    assert!(receiver.has_terminator_receiver());
}

#[test]
fn simple_terminator_transitions_to_skip() {
    let mut receiver = DataUnitReceiver::default();
    // VoiceSimpleTerminator (DUID = 0x3)
    let nid_dibits = u64_to_dibits(make_nid_word(0x293, 0x3));

    for dibit in &nid_dibits {
        receiver.feed(*dibit);
    }

    assert!(receiver.is_done());
}

#[test]
fn tsdu_nid_transitions_to_collect_tsbk() {
    let mut receiver = DataUnitReceiver::default();
    let nid_dibits = make_tsdu_nid_dibits(0x293);

    for dibit in &nid_dibits {
        receiver.feed(*dibit);
    }

    assert!(!receiver.is_done());
    assert!(matches!(receiver.state(), State::CollectTsbk));
}

#[test]
fn decode_single_tsbk_from_tsdu() {
    let mut receiver = DataUnitReceiver::default();

    // Feed NID.
    let nid_dibits = make_tsdu_nid_dibits(0x293);
    for dibit in &nid_dibits {
        receiver.feed(*dibit);
    }

    // Feed one TSBK (last_block=1, opcode=0x3A RFSS status).
    // 0xBA = last_block(1) | protected(0) | opcode(0x3A)
    let payload: [u8; 8] = [0xCC, 0x10, 0xAA, 0xE7, 0x18, 0xD5, 0x73, 0x51];
    let coded_tsbk = make_coded_tsbk(0xBA, &payload);

    let mut events = Vec::new();
    for dibit in &coded_tsbk {
        if let Some(event) = receiver.feed(*dibit) {
            events.push(event);
        }
    }

    assert_eq!(events.len(), 1);
    match &events[0] {
        ReceiverEvent::Tsbk(tsbk) => {
            assert!(tsbk.header.last_block);
            assert_eq!(tsbk.header.opcode, TsbkOpcode::RfssStatusBroadcast);
        }
        other => panic!("expected Tsbk event, got {other:?}"),
    }

    assert!(receiver.is_done());
}

#[test]
fn decode_multiple_tsbks_in_tsdu() {
    let mut receiver = DataUnitReceiver::default();

    // Feed NID.
    let nid_dibits = make_tsdu_nid_dibits(0x293);
    for dibit in &nid_dibits {
        receiver.feed(*dibit);
    }

    // First TSBK: last_block=0 (0x3A = opcode, bit 7 = 0 for not-last)
    // 0x3A = protected(0) | opcode(0x3A), last_block=0
    let payload1: [u8; 8] = [0xCC, 0x10, 0xAA, 0xE7, 0x18, 0xD5, 0x73, 0x51];
    let coded_tsbk1 = make_coded_tsbk(0x3A, &payload1);

    let mut events = Vec::new();
    for dibit in &coded_tsbk1 {
        if let Some(event) = receiver.feed(*dibit) {
            events.push(event);
        }
    }

    assert_eq!(events.len(), 1);
    match &events[0] {
        ReceiverEvent::Tsbk(tsbk) => {
            assert!(!tsbk.header.last_block);
            assert_eq!(tsbk.header.opcode, TsbkOpcode::RfssStatusBroadcast);
        }
        other => panic!("expected Tsbk event, got {other:?}"),
    }
    assert!(!receiver.is_done());

    // Second TSBK: last_block=1
    // 0xBA = last_block(1) | opcode(0x3A)
    let payload2: [u8; 8] = [0xCC, 0x10, 0xAA, 0xE7, 0x18, 0xD5, 0x73, 0x51];
    let coded_tsbk2 = make_coded_tsbk(0xBA, &payload2);

    events.clear();
    for dibit in &coded_tsbk2 {
        if let Some(event) = receiver.feed(*dibit) {
            events.push(event);
        }
    }

    assert_eq!(events.len(), 1);
    match &events[0] {
        ReceiverEvent::Tsbk(tsbk) => {
            assert!(tsbk.header.last_block);
        }
        other => panic!("expected Tsbk event, got {other:?}"),
    }
    assert!(receiver.is_done());
}

#[test]
fn reset_returns_to_collect_nid() {
    let mut receiver = DataUnitReceiver::default();

    // Feed NID and transition to CollectTsbk.
    let nid_dibits = make_tsdu_nid_dibits(0x293);
    for dibit in &nid_dibits {
        receiver.feed(*dibit);
    }
    assert!(matches!(receiver.state(), State::CollectTsbk));

    // Reset.
    receiver.reset();
    assert!(matches!(receiver.state(), State::CollectNid));
    assert!(!receiver.is_done());
}

#[test]
fn skip_state_discards_dibits() {
    let mut receiver = DataUnitReceiver::default();

    // Feed a non-TSDU NID to enter Skip state.
    let nid_dibits = u64_to_dibits(make_nid_word(0x293, 0x3)); // VoiceSimpleTerminator
    for dibit in &nid_dibits {
        receiver.feed(*dibit);
    }
    assert!(receiver.is_done());

    // Feeding more dibits should produce no events.
    for _ in 0..100 {
        let event = receiver.feed(Dibit::new(0));
        assert!(event.is_none());
    }
}

#[test]
fn full_tsdu_sequence_nid_plus_tsbk() {
    let mut receiver = DataUnitReceiver::default();
    let mut all_events = Vec::new();

    // Build complete TSDU: NID + one TSBK.
    let nid_dibits = make_tsdu_nid_dibits(0x293);

    // Group voice channel grant (opcode 0x00, last_block=1)
    // 0x80 = last_block(1) | opcode(0x00)
    let payload: [u8; 8] = [
        0x61, 0x23, // channel
        0x00, 0x42, // talkgroup 66
        0x01, 0x02, 0x03, // source
        0x00,
    ];
    let coded_tsbk = make_coded_tsbk(0x80, &payload);

    // Feed NID.
    for dibit in &nid_dibits {
        if let Some(event) = receiver.feed(*dibit) {
            all_events.push(event);
        }
    }

    // Feed TSBK.
    for dibit in &coded_tsbk {
        if let Some(event) = receiver.feed(*dibit) {
            all_events.push(event);
        }
    }

    // Should have: 1 NID event + 1 TSBK event.
    assert_eq!(all_events.len(), 2);
    assert!(matches!(&all_events[0], ReceiverEvent::Nid(_)));
    assert!(matches!(&all_events[1], ReceiverEvent::Tsbk(_)));

    match &all_events[1] {
        ReceiverEvent::Tsbk(tsbk) => {
            assert_eq!(tsbk.header.opcode, TsbkOpcode::GroupVoiceChannelGrant);
            assert!(tsbk.header.last_block);
        }
        _ => unreachable!(),
    }
}

#[test]
fn ldu1_nid_transitions_to_decode_lc_frame_group() {
    let mut receiver = DataUnitReceiver::default();
    // LDU1: DUID = 0x5
    let nid_dibits = u64_to_dibits(make_nid_word(0x293, 0x5));

    let mut events = Vec::new();
    for dibit in &nid_dibits {
        if let Some(event) = receiver.feed(*dibit) {
            events.push(event);
        }
    }

    assert_eq!(events.len(), 1);
    match &events[0] {
        ReceiverEvent::Nid(nid) => {
            assert_eq!(nid.data_unit, DataUnit::VoiceLcFrameGroup);
        }
        other => panic!("expected Nid event, got {other:?}"),
    }
    assert!(!receiver.is_done());
    assert!(matches!(receiver.state(), State::DecodeLcFrameGroup));
    assert!(receiver.has_frame_group());
}

#[test]
fn ldu2_nid_transitions_to_decode_cc_frame_group() {
    let mut receiver = DataUnitReceiver::default();
    // LDU2: DUID = 0xA
    let nid_dibits = u64_to_dibits(make_nid_word(0x293, 0xA));

    let mut events = Vec::new();
    for dibit in &nid_dibits {
        if let Some(event) = receiver.feed(*dibit) {
            events.push(event);
        }
    }

    assert_eq!(events.len(), 1);
    match &events[0] {
        ReceiverEvent::Nid(nid) => {
            assert_eq!(nid.data_unit, DataUnit::VoiceCcFrameGroup);
        }
        other => panic!("expected Nid event, got {other:?}"),
    }
    assert!(!receiver.is_done());
    assert!(matches!(receiver.state(), State::DecodeCcFrameGroup));
    assert!(receiver.has_frame_group());
}

// -- NID integrity policy tests --

/// Build NID dibits that fail the integrity check: 12 bit errors in the
/// parity bits, beyond what BCH corrects, leaving NAC and DUID intact.
fn make_bad_parity_nid_dibits(nac: u16, duid: u8) -> Vec<Dibit> {
    let word = make_nid_word(nac, duid);
    let mut dibits = u64_to_dibits(word);
    for i in 16..22 {
        dibits[i] = Dibit::new(dibits[i].bits() ^ 0x03);
    }
    dibits
}

#[test]
fn strict_policy_rejects_bad_parity_nid() {
    let mut receiver = DataUnitReceiver::new(NidIntegrityPolicy::Strict);
    let nid_dibits = make_bad_parity_nid_dibits(0x293, 0x7);

    let mut events = Vec::new();
    for dibit in &nid_dibits {
        if let Some(event) = receiver.feed(*dibit) {
            events.push(event);
        }
    }

    assert_eq!(events.len(), 1);
    assert!(
        matches!(
            &events[0],
            ReceiverEvent::Error(P25Error::NidRejected { .. })
        ),
        "strict mode should reject bad-parity NID, got {:?}",
        events[0]
    );
    assert!(
        receiver.is_done(),
        "should skip to next sync after rejection"
    );
}

#[test]
fn permissive_policy_accepts_bad_parity_nid() {
    let mut receiver = DataUnitReceiver::new(NidIntegrityPolicy::Permissive);
    let nid_dibits = make_bad_parity_nid_dibits(0x293, 0x7);

    let mut events = Vec::new();
    for dibit in &nid_dibits {
        if let Some(event) = receiver.feed(*dibit) {
            events.push(event);
        }
    }

    assert_eq!(events.len(), 1);
    match &events[0] {
        ReceiverEvent::Nid(nid) => {
            assert!(!nid.parity_ok, "parity should be flagged as bad");
        }
        other => panic!("permissive mode should emit Nid event, got {other:?}"),
    }
    // Should have transitioned to CollectTsbk (DUID 0x7 = TSDU).
    assert!(!receiver.is_done());
    assert!(matches!(receiver.state(), State::CollectTsbk));
}

#[test]
fn strict_policy_accepts_good_parity_nid() {
    let mut receiver = DataUnitReceiver::new(NidIntegrityPolicy::Strict);
    let nid_dibits = make_tsdu_nid_dibits(0x293);

    let mut events = Vec::new();
    for dibit in &nid_dibits {
        if let Some(event) = receiver.feed(*dibit) {
            events.push(event);
        }
    }

    assert_eq!(events.len(), 1);
    match &events[0] {
        ReceiverEvent::Nid(nid) => {
            assert!(nid.parity_ok);
            assert!(nid.data_unit.is_trunking_signaling());
        }
        other => panic!("expected Nid event, got {other:?}"),
    }
    assert!(!receiver.is_done());
}

#[test]
fn strict_rejection_includes_nac_and_duid() {
    let mut receiver = DataUnitReceiver::new(NidIntegrityPolicy::Strict);
    let nid_dibits = make_bad_parity_nid_dibits(0x5FC, 0x5);

    let mut events = Vec::new();
    for dibit in &nid_dibits {
        if let Some(event) = receiver.feed(*dibit) {
            events.push(event);
        }
    }

    match &events[0] {
        ReceiverEvent::Error(err @ P25Error::NidRejected { nac, duid, .. }) => {
            assert_eq!(*nac, 0x5FC);
            assert_eq!(*duid, 0x5);
            // Error message should contain actionable diagnostics.
            let msg = err.to_string();
            assert!(msg.contains("5FC"), "error should contain NAC: {msg}");
        }
        other => panic!("expected NidRejected error, got {other:?}"),
    }
}

#[test]
fn default_policy_is_strict() {
    assert_eq!(NidIntegrityPolicy::default(), NidIntegrityPolicy::Strict);
}

use trunker::p25::coding::{cyclic, golay, hamming, reed_solomon};
use trunker::p25::consts::{DATA_FRAG_DIBITS, EXTRA_PIECE_DIBITS, VOICE_FRAME_DIBITS};
use trunker::p25::types::{Dibit, Hexbit};
use trunker::p25::voice::control::LinkControlOpcode;
use trunker::p25::voice::frame_group::{
    hexbits_to_bytes, DataFragmentReceiver, ExtraReceiver, FrameGroupEvent, FrameGroupReceiver,
    FrameGroupType,
};
use trunker::p25::voice::pn::PseudoRandom;

/// Build a clean voice frame from all-zero IMBE data.
fn build_zero_voice_frame() -> [Dibit; VOICE_FRAME_DIBITS] {
    build_voice_frame(&[0u32; 8])
}

/// Build a voice frame from given chunk values (same as frame.rs test helper).
fn build_voice_frame(data_chunks: &[u32; 8]) -> [Dibit; VOICE_FRAME_DIBITS] {
    let seed = data_chunks[0] as u16;
    let mut pn = PseudoRandom::new(seed);

    let mut coded = [0u32; 8];
    coded[0] = golay::standard::encode(seed);

    for i in 1..=3 {
        coded[i] = golay::standard::encode(data_chunks[i] as u16) ^ pn.next_23();
    }
    for i in 4..=6 {
        coded[i] = hamming::standard::encode(data_chunks[i] as u16) as u32 ^ pn.next_15();
    }
    coded[7] = data_chunks[7];

    scramble_into_dibits(&coded)
}

/// Reverse the zigzag interleave (from frame.rs tests).
fn scramble_into_dibits(coded: &[u32; 8]) -> [Dibit; VOICE_FRAME_DIBITS] {
    let mut hi_bits = [0u8; VOICE_FRAME_DIBITS];
    let mut lo_bits = [0u8; VOICE_FRAME_DIBITS];

    let widths = [23, 23, 23, 23, 15, 15, 15, 7];
    let segments: [&[(usize, bool, usize)]; 8] = [
        &[(0, true, 23)],
        &[(69, false, 1), (0, false, 22)],
        &[(66, false, 2), (1, true, 21)],
        &[(64, false, 3), (1, false, 20)],
        &[(61, false, 4), (2, true, 11)],
        &[(35, false, 13), (2, false, 2)],
        &[(8, false, 15)],
        &[(53, true, 7)],
    ];

    for (chunk_idx, chunk_segments) in segments.iter().enumerate() {
        let chunk_val = coded[chunk_idx];
        let width = widths[chunk_idx];
        let mut bit_pos = width;

        for &(start, start_high, count) in *chunk_segments {
            let mut dibit_idx = start;
            let mut use_high = start_high;

            for _ in 0..count {
                bit_pos -= 1;
                let bit = ((chunk_val >> bit_pos) & 1) as u8;

                if use_high {
                    hi_bits[dibit_idx] = bit;
                } else {
                    lo_bits[dibit_idx] = bit;
                }

                dibit_idx += 3;
                use_high = !use_high;
            }
        }
    }

    let mut dibits = [Dibit::new(0); VOICE_FRAME_DIBITS];
    for i in 0..VOICE_FRAME_DIBITS {
        dibits[i] = Dibit::new((hi_bits[i] << 1) | lo_bits[i]);
    }
    dibits
}

/// Build an extra piece (20 dibits) containing 4 Hamming-encoded hexbits.
fn build_extra_piece(hexbits: &[u8; 4]) -> Vec<Dibit> {
    let mut dibits = Vec::with_capacity(EXTRA_PIECE_DIBITS);
    for &hb in hexbits {
        let coded = hamming::shortened::encode(hb & 0x3F);
        // 10 bits -> 5 dibits
        for i in (0..5).rev() {
            dibits.push(Dibit::new(((coded >> (i * 2)) & 0x03) as u8));
        }
    }
    dibits
}

/// Build a data fragment (16 dibits = 2 cyclic code words) from two bytes.
fn build_data_fragment(hi_byte: u8, lo_byte: u8) -> Vec<Dibit> {
    let mut dibits = Vec::with_capacity(DATA_FRAG_DIBITS * 2);
    for &byte_val in &[hi_byte, lo_byte] {
        let coded = cyclic::encode(byte_val);
        for i in (0..8).rev() {
            dibits.push(Dibit::new(((coded >> (i * 2)) & 0x03) as u8));
        }
    }
    dibits
}

#[test]
fn hexbits_to_bytes_basic() {
    // 12 hexbits (72 bits) -> 9 bytes
    let hexbits: Vec<Hexbit> = (0..12).map(|i| Hexbit::new(i)).collect();
    let mut bytes = [0u8; 9];
    hexbits_to_bytes(&hexbits, &mut bytes);

    // hexbit 0 = 0b000000, hexbit 1 = 0b000001 -> 12 bits: 000000_000001
    //   byte 0 = 0b00000000 = 0x00, remaining 4 bits = 0001
    // hexbit 2 = 0b000010 -> 10 bits: 0001_000010
    //   byte 1 = 0b00010000 = 0x10, remaining 2 bits = 10
    // hexbit 3 = 0b000011 -> 8 bits: 10_000011
    //   byte 2 = 0b10000011 = 0x83
    assert_eq!(bytes[0], 0x00);
    assert_eq!(bytes[1], 0x10);
    assert_eq!(bytes[2], 0x83);
}

#[test]
fn hexbits_to_bytes_all_ones() {
    let hexbits = [Hexbit::new(0x3F); 12];
    let mut bytes = [0u8; 9];
    hexbits_to_bytes(&hexbits, &mut bytes);
    // All bits set -> all bytes 0xFF
    assert_eq!(bytes, [0xFF; 9]);
}

#[test]
fn extra_receiver_piece_boundary() {
    let mut extra = ExtraReceiver::new();
    let piece = build_extra_piece(&[0, 0, 0, 0]);

    let mut piece_done_count = 0;
    for dibit in &piece {
        if extra.feed(*dibit) {
            piece_done_count += 1;
        }
    }
    // One piece should trigger one piece_done.
    assert_eq!(piece_done_count, 1);
    assert_eq!(extra.hexbit_count(), 4);
}

#[test]
fn extra_receiver_full_lc_decode() {
    let mut extra = ExtraReceiver::new();

    // Build 24 hexbits: 12 data + 12 parity for RS short.
    let mut hexbit_buf = [Hexbit::default(); 24];
    // Set some data bytes that form a valid LC.
    let lc_bytes = [0x00u8, 0x00, 0xB5, 0x00, 0x00, 0x01, 0xDE, 0xAD, 0xBE];
    // Convert bytes to hexbits.
    bytes_to_hexbits(&lc_bytes, &mut hexbit_buf[..12]);
    // Encode RS parity.
    reed_solomon::short::encode(&mut hexbit_buf);

    // Build 6 extra pieces from the 24 hexbits.
    for piece_idx in 0..6 {
        let start = piece_idx * 4;
        let piece_hexbits = [
            hexbit_buf[start].bits(),
            hexbit_buf[start + 1].bits(),
            hexbit_buf[start + 2].bits(),
            hexbit_buf[start + 3].bits(),
        ];
        let piece_dibits = build_extra_piece(&piece_hexbits);

        for dibit in &piece_dibits {
            extra.feed(*dibit);
        }
    }

    assert!(extra.complete());
    let lc = extra.decode_link_control().unwrap();
    assert_eq!(lc.opcode(), LinkControlOpcode::GroupVoiceTraffic);
}

#[test]
fn data_fragment_decode() {
    let mut frag = DataFragmentReceiver::new();
    let dibits = build_data_fragment(0xAB, 0xCD);

    let mut result = None;
    for dibit in &dibits {
        if let Some(r) = frag.feed(*dibit) {
            result = Some(r);
        }
    }

    assert_eq!(result.unwrap().unwrap(), 0xABCD);
}

#[test]
fn frame_group_receiver_counts_frames() {
    let mut recv = FrameGroupReceiver::new(FrameGroupType::LinkControl);

    let frame = build_zero_voice_frame();

    // Feed frame 1.
    let mut events = Vec::new();
    for dibit in &frame {
        if let Some(event) = recv.feed(*dibit) {
            events.push(event);
        }
    }
    assert_eq!(events.len(), 1);
    assert!(matches!(events[0], FrameGroupEvent::VoiceFrame(_)));
    assert_eq!(recv.frame_index(), 1);
    assert!(!recv.is_done());
}

#[test]
fn frame_group_receiver_full_ldu1() {
    let mut recv = FrameGroupReceiver::new(FrameGroupType::LinkControl);
    let mut events = Vec::new();

    let frame = build_zero_voice_frame();

    // Build valid LC extra data.
    let mut hexbit_buf = [Hexbit::default(); 24];
    let lc_bytes = [0x00u8, 0x00, 0x00, 0x00, 0x00, 0x01, 0x00, 0x00, 0x01];
    bytes_to_hexbits(&lc_bytes, &mut hexbit_buf[..12]);
    reed_solomon::short::encode(&mut hexbit_buf);

    let mut extra_pieces = Vec::new();
    for piece_idx in 0..6 {
        let start = piece_idx * 4;
        let piece_hexbits = [
            hexbit_buf[start].bits(),
            hexbit_buf[start + 1].bits(),
            hexbit_buf[start + 2].bits(),
            hexbit_buf[start + 3].bits(),
        ];
        extra_pieces.push(build_extra_piece(&piece_hexbits));
    }

    let data_frag = build_data_fragment(0x42, 0x37);

    // Frame 1
    for dibit in &frame {
        if let Some(e) = recv.feed(*dibit) { events.push(e); }
    }
    // Frame 2
    for dibit in &frame {
        if let Some(e) = recv.feed(*dibit) { events.push(e); }
    }
    // Extra 1
    for dibit in &extra_pieces[0] {
        if let Some(e) = recv.feed(*dibit) { events.push(e); }
    }
    // Frame 3
    for dibit in &frame {
        if let Some(e) = recv.feed(*dibit) { events.push(e); }
    }
    // Extra 2
    for dibit in &extra_pieces[1] {
        if let Some(e) = recv.feed(*dibit) { events.push(e); }
    }
    // Frame 4
    for dibit in &frame {
        if let Some(e) = recv.feed(*dibit) { events.push(e); }
    }
    // Extra 3
    for dibit in &extra_pieces[2] {
        if let Some(e) = recv.feed(*dibit) { events.push(e); }
    }
    // Frame 5
    for dibit in &frame {
        if let Some(e) = recv.feed(*dibit) { events.push(e); }
    }
    // Extra 4
    for dibit in &extra_pieces[3] {
        if let Some(e) = recv.feed(*dibit) { events.push(e); }
    }
    // Frame 6
    for dibit in &frame {
        if let Some(e) = recv.feed(*dibit) { events.push(e); }
    }
    // Extra 5
    for dibit in &extra_pieces[4] {
        if let Some(e) = recv.feed(*dibit) { events.push(e); }
    }
    // Frame 7
    for dibit in &frame {
        if let Some(e) = recv.feed(*dibit) { events.push(e); }
    }
    // Extra 6 (should produce LC event)
    for dibit in &extra_pieces[5] {
        if let Some(e) = recv.feed(*dibit) { events.push(e); }
    }
    // Frame 8
    for dibit in &frame {
        if let Some(e) = recv.feed(*dibit) { events.push(e); }
    }
    // Data fragment
    for dibit in &data_frag {
        if let Some(e) = recv.feed(*dibit) { events.push(e); }
    }
    // Frame 9
    for dibit in &frame {
        if let Some(e) = recv.feed(*dibit) { events.push(e); }
    }

    assert!(recv.is_done());

    // Count event types.
    let voice_frames = events.iter().filter(|e| matches!(e, FrameGroupEvent::VoiceFrame(_))).count();
    let lc_events = events.iter().filter(|e| matches!(e, FrameGroupEvent::LinkControl(_))).count();
    let data_events = events.iter().filter(|e| matches!(e, FrameGroupEvent::DataFragment(_))).count();
    let error_events = events.iter().filter(|e| matches!(e, FrameGroupEvent::Error(_))).count();

    assert_eq!(voice_frames, 9, "expected 9 voice frames");
    assert_eq!(lc_events, 1, "expected 1 link control event");
    assert_eq!(data_events, 1, "expected 1 data fragment event");
    assert_eq!(error_events, 0, "expected no errors, got: {:?}",
        events.iter().filter_map(|e| match e {
            FrameGroupEvent::Error(err) => Some(err.to_string()),
            _ => None,
        }).collect::<Vec<_>>()
    );
}

/// Convert bytes to hexbits (6 bits each, MSB first).
fn bytes_to_hexbits(bytes: &[u8], hexbits: &mut [Hexbit]) {
    let mut bit_accumulator: u32 = 0;
    let mut bits_available: usize = 0;
    let mut hexbit_index = 0;

    for &byte in bytes {
        bit_accumulator = (bit_accumulator << 8) | u32::from(byte);
        bits_available += 8;

        while bits_available >= 6 && hexbit_index < hexbits.len() {
            bits_available -= 6;
            hexbits[hexbit_index] =
                Hexbit::new(((bit_accumulator >> bits_available) & 0x3F) as u8);
            hexbit_index += 1;
        }
    }
}

#[test]
fn frame_group_done_between_776_and_784_dibits() {
    for (t, pattern) in [
        (FrameGroupType::LinkControl, 0u8),
        (FrameGroupType::CryptoControl, 3u8),
        (FrameGroupType::LinkControl, 1u8),
    ] {
        let mut rx = FrameGroupReceiver::new(t);
        let mut fed = 0usize;
        while !rx.is_done() {
            rx.feed(Dibit::new((pattern + (fed % 3) as u8) % 4));
            fed += 1;
            assert!(fed <= 784, "still not done after 784 dibits");
        }
        assert!(fed >= 776, "done after only {fed} dibits");
        // Once done, further dibits change nothing and report nothing.
        assert!(rx.feed(Dibit::new(2)).is_none());
        assert!(rx.is_done());
    }
}

use trunker::p25::voice::frame::VoiceFrame;
use trunker::vocoder::consts::{NUM_HARMONICS, SAMPLES_PER_FRAME, SAMPLE_RATE};
use trunker::vocoder::frame::ReceivedFrame;

#[test]
fn frame_duration_is_20ms() {
    assert_eq!(SAMPLES_PER_FRAME * 1000 / SAMPLE_RATE, 20);
}

#[test]
fn num_harmonics_is_range_inclusive() {
    assert_eq!(NUM_HARMONICS, 48);
}

#[test]
fn new_accepts_valid_chunks() {
    let chunks: [u32; 8] = [0x123, 0x456, 0x789, 0xABC, 0x3FF, 0x555, 0x000, 0x7F];
    let errors: [usize; 7] = [0; 7];
    let frame = ReceivedFrame::new(chunks, errors);
    assert_eq!(frame.chunks, chunks);
    assert_eq!(frame.errors, errors);
}

#[test]
fn new_accepts_all_zeros() {
    let frame = ReceivedFrame::new([0; 8], [0; 7]);
    assert_eq!(frame.chunks, [0; 8]);
    assert_eq!(frame.errors, [0; 7]);
}

#[test]
fn new_accepts_maximum_valid_values() {
    let chunks: [u32; 8] = [
        0xFFF, // 12-bit max
        0xFFF, // 12-bit max
        0xFFF, // 12-bit max
        0xFFF, // 12-bit max
        0x7FF, // 11-bit max
        0x7FF, // 11-bit max
        0x7FF, // 11-bit max
        0x7F,  // 7-bit max
    ];
    let frame = ReceivedFrame::new(chunks, [0; 7]);
    assert_eq!(frame.chunks, chunks);
}

#[test]
fn from_voice_frame_copies_fields() {
    let voice_frame = VoiceFrame {
        chunks: [0x100, 0x200, 0x300, 0x400, 0x100, 0x200, 0x300, 0x55],
        errors: [1, 0, 2, 0, 1, 0, 0],
    };
    let received = ReceivedFrame::from_voice_frame(&voice_frame);
    assert_eq!(received.chunks, voice_frame.chunks);
    assert_eq!(received.errors, voice_frame.errors);
}

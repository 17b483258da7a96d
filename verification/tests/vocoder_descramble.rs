use trunker::vocoder::descramble::{
    descramble, gain_index, period, Bootstrap, QuantizedAmplitudes, VoiceDecisions,
};
use trunker::vocoder::error::VocoderError;
use trunker::vocoder::params::BaseParams;
use trunker::vocoder::scan::{ScanBits, ScanChunks, ScanSeparator};

/// Bits of the quantized amplitudes b_3..b_17 for 16 harmonics.
const ALLOCATION_16: [u8; 15] = [6, 6, 6, 5, 5, 6, 6, 5, 4, 4, 3, 3, 3, 3, 2];
/// Bits of the quantized amplitudes b_3..b_11 for 10 harmonics.
const ALLOCATION_10: [u8; 9] = [9, 9, 8, 8, 8, 9, 7, 6, 5];

fn allocation(harmonic_count: u32) -> &'static [u8] {
    match harmonic_count {
        16 => &ALLOCATION_16,
        10 => &ALLOCATION_10,
        _ => panic!("no allocation for {harmonic_count} harmonics"),
    }
}

#[test]
fn period_extraction() {
    let chunks: [u32; 8] = [
        0b010101111111,
        0b111111111111,
        0b111111111111,
        0b111111111111,
        0b11111111111,
        0b11111111111,
        0b11111111111,
        0b1111011,
    ];
    assert_eq!(period(&chunks), 0b01010101);
}

#[test]
fn gain_index_extraction() {
    let chunks: [u32; 8] = [
        0b111111010111,
        0b111111111111,
        0b111111111111,
        0b111111111111,
        0b11111111111,
        0b11111111111,
        0b11111111111,
        0b1110111,
    ];
    assert_eq!(gain_index(&chunks, 0b01), 0b010010);
}

#[test]
fn descramble_with_16_harmonics() {
    let chunks: [u32; 8] = [
        0b001000010010,
        0b110011001100,
        0b111000111000,
        0b111111111111,
        0b10100110101,
        0b00101111010,
        0b01110111011,
        0b00001000,
    ];

    let bootstrap = Bootstrap::new(&chunks);
    let params = BaseParams::new(bootstrap.unwrap_period());
    let (amplitudes, voice, gain) = descramble(&chunks, &params, allocation(params.harmonic_count)).unwrap();

    assert_eq!(params.harmonic_count, 16);
    assert_eq!(params.band_count, 6);
    assert_eq!(gain, 0b010101);

    assert_eq!(amplitudes.get(3), 0b000110);
    assert_eq!(amplitudes.get(4), 0b100010);
    assert_eq!(amplitudes.get(5), 0b011011);
    assert_eq!(amplitudes.get(6), 0b11001);
    assert_eq!(amplitudes.get(7), 0b01111);
    assert_eq!(amplitudes.get(8), 0b100100);
    assert_eq!(amplitudes.get(9), 0b110101);
    assert_eq!(amplitudes.get(10), 0b10111);
    assert_eq!(amplitudes.get(11), 0b1101);
    assert_eq!(amplitudes.get(12), 0b1110);
    assert_eq!(amplitudes.get(13), 0b111);
    assert_eq!(amplitudes.get(14), 0b111);
    assert_eq!(amplitudes.get(15), 0b110);
    assert_eq!(amplitudes.get(16), 0b100);
    assert_eq!(amplitudes.get(17), 0b10);

    assert_eq!(voice.unvoiced_count(), 9);

    assert!(voice.is_voiced(1));
    assert!(voice.is_voiced(2));
    assert!(voice.is_voiced(3));
    assert!(!voice.is_voiced(4));
    assert!(!voice.is_voiced(5));
    assert!(!voice.is_voiced(6));
    assert!(voice.is_voiced(7));
    assert!(voice.is_voiced(8));
    assert!(voice.is_voiced(9));
    assert!(!voice.is_voiced(10));
    assert!(!voice.is_voiced(11));
    assert!(!voice.is_voiced(12));
    assert!(!voice.is_voiced(13));
    assert!(!voice.is_voiced(14));
    assert!(!voice.is_voiced(15));
    assert!(voice.is_voiced(16));

    for l in 17..63 {
        assert!(!voice.is_voiced(l));
    }
}

#[test]
fn descramble_with_10_harmonics() {
    let chunks: [u32; 8] = [
        0b000001010010,
        0b110011001100,
        0b111000111000,
        0b111111111111,
        0b11010110101,
        0b00101111010,
        0b01110111011,
        0b00001000,
    ];

    let bootstrap = Bootstrap::new(&chunks);
    let params = BaseParams::new(bootstrap.unwrap_period());
    let (amplitudes, voice, gain) = descramble(&chunks, &params, allocation(params.harmonic_count)).unwrap();

    assert_eq!(params.harmonic_count, 10);
    assert_eq!(params.band_count, 4);
    assert_eq!(gain, 0b010011);

    assert_eq!(amplitudes.get(3), 0b010101011);
    assert_eq!(amplitudes.get(4), 0b110101101);
    assert_eq!(amplitudes.get(5), 0b01001011);
    assert_eq!(amplitudes.get(6), 0b01011000);
    assert_eq!(amplitudes.get(7), 0b10011101);
    assert_eq!(amplitudes.get(8), 0b010111011);
    assert_eq!(amplitudes.get(9), 0b1111110);
    assert_eq!(amplitudes.get(10), 0b110110);
    assert_eq!(amplitudes.get(11), 0b11100);

    assert_eq!(voice.unvoiced_count(), 3);

    assert!(voice.is_voiced(1));
    assert!(voice.is_voiced(2));
    assert!(voice.is_voiced(3));
    assert!(voice.is_voiced(4));
    assert!(voice.is_voiced(5));
    assert!(voice.is_voiced(6));
    assert!(!voice.is_voiced(7));
    assert!(!voice.is_voiced(8));
    assert!(!voice.is_voiced(9));
    assert!(voice.is_voiced(10));

    for l in 11..=63 {
        assert!(!voice.is_voiced(l));
    }
}

#[test]
fn descramble_with_16_harmonics_variant() {
    let chunks: [u32; 8] = [
        0b001000010010,
        0b110011001100,
        0b111000111000,
        0b111111111111,
        0b10101110101,
        0b00101111010,
        0b01110111011,
        0b00001000,
    ];

    let bootstrap = Bootstrap::new(&chunks);
    let params = BaseParams::new(bootstrap.unwrap_period());
    let (_, voice, _) = descramble(&chunks, &params, allocation(params.harmonic_count)).unwrap();

    assert_eq!(params.harmonic_count, 16);
    assert!(voice.is_voiced(1));
    assert!(voice.is_voiced(2));
    assert!(voice.is_voiced(3));
    assert!(!voice.is_voiced(4));
    assert!(!voice.is_voiced(5));
    assert!(!voice.is_voiced(6));
    assert!(voice.is_voiced(7));
    assert!(voice.is_voiced(8));
    assert!(voice.is_voiced(9));
    assert!(!voice.is_voiced(10));
    assert!(!voice.is_voiced(11));
    assert!(!voice.is_voiced(12));
    assert!(voice.is_voiced(13));
    assert!(voice.is_voiced(14));
    assert!(voice.is_voiced(15));
    assert!(voice.is_voiced(16));

    for l in 17..=63 {
        assert!(!voice.is_voiced(l));
    }
}

#[test]
fn voice_decisions_bitmap_generation() {
    // L=16, K=6, remainder = 16 % 3 = 1
    let params = BaseParams::new(32);
    assert_eq!(params.harmonic_count, 16);
    assert_eq!(params.band_count, 6);

    let v = VoiceDecisions::new(0b101011, &params);
    assert_eq!(v.unvoiced_count(), 6);
    assert_eq!(v.voiced(), 0b1110001110001111);

    let v = VoiceDecisions::new(0b101010, &params);
    assert_eq!(v.unvoiced_count(), 7);
    assert_eq!(v.voiced(), 0b1110001110001110);

    let v = VoiceDecisions::new(0b001001, &params);
    assert_eq!(v.unvoiced_count(), 12);
    assert_eq!(v.voiced(), 0b0000001110000001);

    let v = VoiceDecisions::new(0b101000, &params);
    assert_eq!(v.unvoiced_count(), 10);
    assert_eq!(v.voiced(), 0b1110001110000000);

    let v = VoiceDecisions::new(0b000000, &params);
    assert_eq!(v.unvoiced_count(), 16);
    assert_eq!(v.voiced(), 0b0000000000000000);

    let v = VoiceDecisions::new(0b111111, &params);
    assert_eq!(v.unvoiced_count(), 0);
    assert_eq!(v.voiced(), 0b1111111111111111);

    // L=17, K=6, remainder = 17 % 3 = 2
    let params = BaseParams::new(36);
    assert_eq!(params.harmonic_count, 17);
    assert_eq!(params.band_count, 6);

    let v = VoiceDecisions::new(0b101011, &params);
    assert_eq!(v.unvoiced_count(), 6);
    assert_eq!(v.voiced(), 0b11100011100011111);

    let v = VoiceDecisions::new(0b101010, &params);
    assert_eq!(v.unvoiced_count(), 8);
    assert_eq!(v.voiced(), 0b11100011100011100);

    let v = VoiceDecisions::new(0b001001, &params);
    assert_eq!(v.unvoiced_count(), 12);
    assert_eq!(v.voiced(), 0b00000011100000011);

    let v = VoiceDecisions::new(0b101000, &params);
    assert_eq!(v.unvoiced_count(), 11);
    assert_eq!(v.voiced(), 0b11100011100000000);

    let v = VoiceDecisions::new(0b000000, &params);
    assert_eq!(v.unvoiced_count(), 17);
    assert_eq!(v.voiced(), 0b00000000000000000);

    let v = VoiceDecisions::new(0b111111, &params);
    assert_eq!(v.unvoiced_count(), 0);
    assert_eq!(v.voiced(), 0b11111111111111111);

    // L=18, K=6, remainder = 18 % 3 = 0
    let params = BaseParams::new(40);
    assert_eq!(params.harmonic_count, 18);
    assert_eq!(params.band_count, 6);

    let v = VoiceDecisions::new(0b101011, &params);
    assert_eq!(v.unvoiced_count(), 6);
    assert_eq!(v.voiced(), 0b111000111000111111);

    let v = VoiceDecisions::new(0b101010, &params);
    assert_eq!(v.unvoiced_count(), 9);
    assert_eq!(v.voiced(), 0b111000111000111000);

    let v = VoiceDecisions::new(0b001001, &params);
    assert_eq!(v.unvoiced_count(), 12);
    assert_eq!(v.voiced(), 0b000000111000000111);

    let v = VoiceDecisions::new(0b101000, &params);
    assert_eq!(v.unvoiced_count(), 12);
    assert_eq!(v.voiced(), 0b111000111000000000);

    let v = VoiceDecisions::new(0b000000, &params);
    assert_eq!(v.unvoiced_count(), 18);
    assert_eq!(v.voiced(), 0b000000000000000000);

    let v = VoiceDecisions::new(0b111111, &params);
    assert_eq!(v.unvoiced_count(), 0);
    assert_eq!(v.voiced(), 0b111111111111111111);
}

#[test]
fn bootstrap_silence_and_invalid() {
    // b_0 = 0b11011001 = 217: silence.
    let silence: [u32; 8] = [0b110110000000, 0, 0, 0, 0, 0, 0, 0b0000010];
    assert_eq!(period(&silence), 217);
    assert_eq!(Bootstrap::new(&silence), Bootstrap::Silence);

    // b_0 = 0b11010000 = 208: invalid.
    let invalid: [u32; 8] = [0b110100000000, 0, 0, 0, 0, 0, 0, 0];
    assert_eq!(period(&invalid), 208);
    assert_eq!(Bootstrap::new(&invalid), Bootstrap::Invalid);

    // b_0 = 207: the last valid period.
    let last: [u32; 8] = [0b110011000000, 0, 0, 0, 0, 0, 0, 0b0000110];
    assert_eq!(period(&last), 207);
    assert_eq!(Bootstrap::new(&last), Bootstrap::Period(207));
    assert_eq!(Bootstrap::new(&last).unwrap_period(), 207);
}

#[test]
fn scan_exhausted_when_allocation_too_large() {
    let chunks: [u32; 8] = [0; 8];
    let params = BaseParams::new(32);
    let mut alloc = ALLOCATION_16;
    alloc[0] += 1;
    let sep = ScanSeparator::new(&chunks, &params);
    let scan = ScanBits::new(ScanChunks::new(&chunks, sep.scanned, &params));
    let r = QuantizedAmplitudes::new(scan, &params, &alloc);
    assert_eq!(r.unwrap_err(), VocoderError::ScanExhausted { harmonic_count: 16 });
    assert_eq!(
        VocoderError::ScanExhausted { harmonic_count: 16 }.to_string(),
        "scan exhausted before the amplitudes of 16 harmonics were filled"
    );
}

#[test]
fn scan_not_exhausted_when_allocation_too_small() {
    let chunks: [u32; 8] = [0; 8];
    let params = BaseParams::new(32);
    let mut alloc = ALLOCATION_16;
    alloc[14] -= 1;
    match descramble(&chunks, &params, &alloc) {
        Err(e) => {
            assert_eq!(e, VocoderError::ScanNotExhausted { harmonic_count: 16 });
            assert_eq!(e.to_string(), "scan bits left over after the amplitudes of 16 harmonics were filled");
        }
        Ok(_) => panic!("expected an error"),
    }
}

#[test]
fn force_voiced_sets_one_harmonic() {
    let params = BaseParams::new(32);
    let mut v = VoiceDecisions::new(0b000000, &params);
    assert_eq!(v.unvoiced_count(), 16);
    v.force_voiced(5);
    assert!(v.is_voiced(5));
    assert!(!v.is_voiced(4));
    assert!(!v.is_voiced(6));
    assert_eq!(v.unvoiced_count(), 15);
    assert_eq!(v.voiced(), 1 << 11);
    // Forcing an already voiced harmonic changes nothing.
    v.force_voiced(5);
    assert_eq!(v.unvoiced_count(), 15);
}

#[test]
fn default_decisions_are_all_unvoiced() {
    let v = VoiceDecisions::default();
    assert_eq!(v.unvoiced_count(), 0);
    assert_eq!(v.voiced(), 0);
    assert!(!v.is_voiced(1));
}

#[test]
fn band_decisions_cover_three_harmonics() {
    // L=17, K=6: band 1 of b_1 (second from the top) covers harmonics 4..6.
    let params = BaseParams::new(36);
    let v = VoiceDecisions::new(0b010000, &params);
    for l in 1..=17 {
        assert_eq!(v.is_voiced(l), (4..=6).contains(&l));
    }
}

#[test]
fn gain_index_separator_bits_in_the_middle() {
    let chunks: [u32; 8] = [0b000000101000, 0, 0, 0, 0, 0, 0, 0b0001000];
    // u_0 bits 5..3 = 0b101, separator 0b11, u_7 bit 3 = 1.
    assert_eq!(gain_index(&chunks, 0b11), 0b101111);
}

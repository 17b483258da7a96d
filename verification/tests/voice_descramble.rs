use trunker::p25::types::Dibit;
use trunker::p25::voice::descramble::{descramble, VOICE_FRAME_DIBITS};

#[test]
fn descramble_all_zeros() {
    let dibits = [Dibit::new(0); VOICE_FRAME_DIBITS];
    for i in 0..8 {
        assert_eq!(descramble(&dibits, i), 0, "chunk u_{i} should be 0");
    }
}

#[test]
fn descramble_all_ones() {
    // All dibits = 0b11, so both hi and lo bits are 1.
    let dibits = [Dibit::new(3); VOICE_FRAME_DIBITS];
    let expected: [u32; 8] = [
        (1 << 23) - 1, // u_0: 23 ones
        (1 << 23) - 1, // u_1: 23 ones
        (1 << 23) - 1, // u_2: 23 ones
        (1 << 23) - 1, // u_3: 23 ones
        (1 << 15) - 1, // u_4: 15 ones
        (1 << 15) - 1, // u_5: 15 ones
        (1 << 15) - 1, // u_6: 15 ones
        (1 << 7) - 1,  // u_7: 7 ones
    ];

    for i in 0..8 {
        assert_eq!(
            descramble(&dibits, i),
            expected[i],
            "chunk u_{i} all-ones mismatch"
        );
    }
}

#[test]
fn no_bit_overlap_between_chunks() {
    // Set each dibit to a unique pattern and verify chunks don't share
    // the same bit extraction.
    // We verify this indirectly: if we set a single dibit to 0b11 and
    // all others to 0b00, exactly 2 chunks should have non-zero output
    // (one chunk gets the hi bit, another gets the lo bit).
    for target in 0..VOICE_FRAME_DIBITS {
        let mut dibits = [Dibit::new(0); VOICE_FRAME_DIBITS];
        dibits[target] = Dibit::new(3);

        let mut nonzero_chunks = 0;
        for i in 0..8 {
            if descramble(&dibits, i) != 0 {
                nonzero_chunks += 1;
            }
        }
        assert_eq!(
            nonzero_chunks, 2,
            "dibit {target} should affect exactly 2 chunks"
        );
    }
}

#[test]
fn u0_extracts_high_bits_from_stride_3() {
    // u_0 starts at dibit 0, high bit, stride 3, for 23 bits.
    // Set dibit 0 to 0b10 (hi=1, lo=0), all others to 0.
    let mut dibits = [Dibit::new(0); VOICE_FRAME_DIBITS];
    dibits[0] = Dibit::new(0b10); // hi=1

    let u0 = descramble(&dibits, 0);
    // u_0 MSB should be 1, all others 0.
    assert_eq!(u0, 1 << 22);
}

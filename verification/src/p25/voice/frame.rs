//! IMBE voice frame decoder.
//!
//! Decodes a single IMBE voice frame from 72 interleaved, PN-scrambled
//! dibits into 8 data chunks (u_0..u_7) totaling 88 bits of IMBE data.
//!
//! The decoding pipeline for each frame:
//! 1. Zigzag deinterleave to extract coded chunks
//! 2. Golay(23,12) decode u_0 to recover the 12-bit PN seed
//! 3. Generate PN sequence and XOR-descramble u_1..u_6
//! 4. Golay(23,12) decode u_1..u_3 (higher-priority voice data)
//! 5. Hamming(15,11) decode u_4..u_6 (lower-priority voice data)
//! 6. u_7 passes through unprotected (7 bits)

use vstd::prelude::*;
use crate::p25::coding::{golay, hamming};
use crate::p25::error::P25Error;
use crate::p25::types::Dibit;
use super::descramble::{self, chunk_value, dibit_values, VOICE_FRAME_DIBITS};
use super::pn::{lcg_after, pn_word, PseudoRandom};

verus! {

/// Decoded IMBE voice frame containing 88 bits of voice data.
#[derive(Debug)]
pub struct VoiceFrame {
    /// Data chunks u_0 through u_7.
    ///
    /// - u_0..u_3: 12 bits each (Golay-decoded)
    /// - u_4..u_6: 11 bits each (Hamming-decoded)
    /// - u_7: 7 bits (unprotected)
    pub chunks: [u32; 8],
    /// Number of FEC errors corrected in each chunk u_0 through u_6.
    ///
    /// u_7 has no FEC so it is not included.
    pub errors: [usize; 7],
}

/// The scrambling mask applied to chunk `i` (1 through 6) of a frame whose
/// PN generator starts from `seed`: 23-bit words for u_1..u_3, then 15-bit
/// words for u_4..u_6.
pub open spec fn pn_mask(seed: u16, i: nat) -> nat {
    let start = (seed * 16) as u16;
    if i <= 3 {
        pn_word(lcg_after(start, (23 * (i - 1)) as nat), 23)
    } else {
        pn_word(lcg_after(start, (69 + 15 * (i - 4)) as nat), 15)
    }
}

/// Decoding of chunk `i` (1 through 6) after descrambling with the PN mask.
#[verifier::opaque]
pub open spec fn chunk_decode(d: Seq<u8>, seed: u16, i: nat) -> Option<(u16, usize)> {
    let coded = (chunk_value(d, i) as u32) ^ (pn_mask(seed, i) as u32);
    if i <= 3 {
        golay::standard::spec_decode(coded)
    } else {
        hamming::standard::spec_decode(coded as u16)
    }
}

/// The first chunk at or after `i` (up to 6) that fails to decode, or 7.
pub open spec fn first_failure(d: Seq<u8>, seed: u16, i: nat) -> nat
    decreases 7 - i,
{
    if i >= 7 {
        7
    } else if chunk_decode(d, seed, i) is None {
        i
    } else {
        first_failure(d, seed, i + 1)
    }
}

/// The error reported for a failing chunk.
pub open spec fn chunk_error(i: nat) -> P25Error {
    if i <= 3 {
        P25Error::VoiceGolayDecode { chunk: i as usize }
    } else {
        P25Error::VoiceHammingDecode { chunk: i as usize }
    }
}

proof fn lemma_first_failure(d: Seq<u8>, seed: u16, i: nat)
    ensures
        i <= first_failure(d, seed, i) <= 7 || i > 7,
        first_failure(d, seed, i) < 7 ==> chunk_decode(d, seed, first_failure(d, seed, i)) is None,
        forall|j: nat| i <= j < first_failure(d, seed, i) ==> chunk_decode(d, seed, j) is Some,
    decreases 7 - i,
{
    if i < 7 {
        lemma_first_failure(d, seed, i + 1);
    }
}

/// What decoding the 72 dibits `dibits` gives: an error naming the first
/// chunk whose FEC decode fails, or else the frame whose chunk 0 is the PN
/// seed, chunks 1 to 6 the decoded unmasked chunks, and chunk 7 the
/// unprotected chunk, with the error counts of the decodings.
pub open spec fn frame_decoded(dibits: Seq<Dibit>, r: Result<VoiceFrame, P25Error>) -> bool {
    let d = dibit_values(dibits);
    match golay::standard::spec_decode(chunk_value(d, 0) as u32) {
        None => r == Err::<VoiceFrame, P25Error>(P25Error::VoiceGolayDecode { chunk: 0 }),
        Some((seed, e0)) => {
            let f = first_failure(d, seed, 1);
            &&& f < 7 ==> r == Err::<VoiceFrame, P25Error>(chunk_error(f))
            &&& f == 7 ==> (r matches Ok(frame) && frame.chunks@[0] == seed && frame.errors@[0]
                == e0 && frame.chunks@[7] == chunk_value(d, 7) && forall|i: nat|
                1 <= i <= 6 ==> #[trigger] chunk_decode(d, seed, i) == Some(
                    (frame.chunks@[i as int] as u16, frame.errors@[i as int]),
                ) && frame.chunks@[i as int] < 0x1000)
        },
    }
}

/// Descramble, unmask and FEC-decode chunk `index` (1 through 6), advancing
/// the PN generator by the chunk's mask width.
fn decode_protected(dibits: &[Dibit; 72], index: usize, pn: &mut PseudoRandom, Ghost(seed): Ghost<u16>) -> (r: Option<(u32, usize)>)
    requires
        1 <= index <= 6,
        seed < 0x1000,
        old(pn)@ == lcg_after((seed * 16) as u16, if index <= 3 { (23 * (index - 1)) as nat } else { (69 + 15 * (index - 4)) as nat }),
    ensures
        final(pn)@ == lcg_after(old(pn)@, if index <= 3 { 23nat } else { 15nat }),
        match r {
            Some((data, e)) => chunk_decode(dibit_values(dibits@), seed, index as nat) == Some((data as u16, e)) && data < 0x1000,
            None => chunk_decode(dibit_values(dibits@), seed, index as nat) is None,
        },
{
    proof {
        reveal(chunk_decode);
    }
    let scrambled = descramble::descramble(dibits, index);
    if index <= 3 {
        let mask = pn.next_23();
        let coded = scrambled ^ mask;
        proof {
            vstd::arithmetic::power2::lemma2_to64();
            crate::p25::bitwise::lemma_xor_bound(scrambled, mask, 0, 0);
            crate::p25::bitwise::lemma_mask_u32(coded);
            golay::standard::lemma_decode_bounds(coded);
        }
        match golay::standard::decode(coded) {
            Some((data, e)) => Some((data as u32, e)),
            None => None,
        }
    } else {
        let mask = pn.next_15();
        let coded = scrambled ^ mask;
        proof {
            vstd::arithmetic::power2::lemma2_to64();
            crate::p25::bitwise::lemma_xor_bound(scrambled, mask, 0, 0);
            crate::p25::bitwise::lemma_mask_u32(coded);
            hamming::standard::lemma_decode_bounds(coded as u16);
        }
        match hamming::standard::decode(coded as u16) {
            Some((data, e)) => Some((data as u32, e)),
            None => None,
        }
    }
}

impl VoiceFrame {
    /// Decode a voice frame from 72 coded, PN-scrambled, interleaved dibits.
    ///
    /// Returns the decoded frame with IMBE data chunks and error counts,
    /// or an error naming the first chunk whose FEC decode fails.
    pub fn decode(dibits: &[Dibit; 72]) -> (r: Result<Self, P25Error>)
        ensures
            frame_decoded(dibits@, r),
    {
        let ghost d = dibit_values(dibits@);
        let mut chunks = [0u32; 8];
        let mut errors = [0usize; 7];

        // Step 1: Decode u_0 (no PN scrambling) to get the 12-bit PN seed.
        let u0 = descramble::descramble(dibits, 0);
        proof {
            vstd::arithmetic::power2::lemma2_to64();
            crate::p25::bitwise::lemma_xor_bound(u0, 0, 0, 0);
            assert(u0 >> 23u32 == 0) by {
                crate::p25::bitwise::lemma_mask_u32(u0);
            }
            golay::standard::lemma_decode_bounds(u0);
        }
        let (seed, err) = match golay::standard::decode(u0) {
            Some(v) => v,
            None => return Err(P25Error::VoiceGolayDecode { chunk: 0 }),
        };

        chunks[0] = seed as u32;
        errors[0] = err;

        // Step 2: Initialize PN generator from the seed.
        let mut pn = PseudoRandom::new(seed);
        let ghost start = pn@;

        // Step 3: Decode u_1..u_3 (Golay-protected, PN-scrambled).
        let mut index: usize = 1;
        while index <= 3
            invariant
                1 <= index <= 4,
                d == dibit_values(dibits@),
                golay::standard::spec_decode(chunk_value(d, 0) as u32) == Some((seed, err)),
                seed < 0x1000,
                start == (seed * 16) as u16,
                pn@ == lcg_after(start, (23 * (index - 1)) as nat),
                chunks@[0] == seed,
                errors@[0] == err,
                chunks@.len() == 8,
                errors@.len() == 7,
                forall|j: nat| 1 <= j < index ==> #[trigger] chunk_decode(d, seed, j) == Some(
                    (chunks@[j as int] as u16, errors@[j as int]),
                ),
                forall|j: int| 1 <= j < index ==> #[trigger] chunks@[j] < 0x1000,
            decreases 4 - index,
        {
            proof {
                lemma_lcg_after_add(start, (23 * (index - 1)) as nat, 23);
            }
            match decode_protected(dibits, index, &mut pn, Ghost(seed)) {
                Some((data, e)) => {
                    chunks[index] = data;
                    errors[index] = e;
                },
                None => {
                    proof {
                        lemma_first_failure(d, seed, 1);
                        lemma_no_failure_before(d, seed, index as nat);
                    }
                    return Err(P25Error::VoiceGolayDecode { chunk: index });
                },
            }
            index += 1;
        }

        // Step 4: Decode u_4..u_6 (Hamming-protected, PN-scrambled).
        while index <= 6
            invariant
                4 <= index <= 7,
                d == dibit_values(dibits@),
                golay::standard::spec_decode(chunk_value(d, 0) as u32) == Some((seed, err)),
                seed < 0x1000,
                start == (seed * 16) as u16,
                pn@ == lcg_after(start, (69 + 15 * (index - 4)) as nat),
                chunks@[0] == seed,
                errors@[0] == err,
                chunks@.len() == 8,
                errors@.len() == 7,
                forall|j: nat| 1 <= j < index ==> #[trigger] chunk_decode(d, seed, j) == Some(
                    (chunks@[j as int] as u16, errors@[j as int]),
                ),
                forall|j: int| 1 <= j < index ==> #[trigger] chunks@[j] < 0x1000,
            decreases 7 - index,
        {
            proof {
                lemma_lcg_after_add(start, (69 + 15 * (index - 4)) as nat, 15);
            }
            match decode_protected(dibits, index, &mut pn, Ghost(seed)) {
                Some((data, e)) => {
                    chunks[index] = data;
                    errors[index] = e;
                },
                None => {
                    proof {
                        lemma_first_failure(d, seed, 1);
                        lemma_no_failure_before(d, seed, index as nat);
                    }
                    return Err(P25Error::VoiceHammingDecode { chunk: index });
                },
            }
            index += 1;
        }

        // Step 5: u_7 is unprotected (7 bits, no FEC, no PN).
        chunks[7] = descramble::descramble(dibits, 7);
        proof {
            lemma_first_failure(d, seed, 1);
            lemma_all_decoded(d, seed);
        }

        Ok(Self { chunks, errors })
    }

    /// Total number of FEC errors corrected across all protected chunks.
    pub fn total_errors(&self) -> (r: usize)
        requires
            sum_errors(self.errors@, 7) <= usize::MAX,
        ensures
            r == sum_errors(self.errors@, 7),
    {
        let mut total: usize = 0;
        let mut i: usize = 0;
        while i < 7
            invariant
                i <= 7,
                self.errors@.len() == 7,
                total == sum_errors(self.errors@, i as nat),
                sum_errors(self.errors@, 7) <= usize::MAX,
            decreases 7 - i,
        {
            proof {
                lemma_sum_errors_mono(self.errors@, (i + 1) as nat, 7);
            }
            total = total + self.errors[i];
            i += 1;
        }
        total
    }
}

/// The sum of the first `n` error counts.
pub open spec fn sum_errors(e: Seq<usize>, n: nat) -> nat
    decreases n,
{
    if n == 0 {
        0
    } else {
        sum_errors(e, (n - 1) as nat) + (e[n - 1] as nat)
    }
}

proof fn lemma_sum_errors_mono(e: Seq<usize>, a: nat, b: nat)
    requires
        a <= b,
    ensures
        sum_errors(e, a) <= sum_errors(e, b),
    decreases b - a,
{
    if a < b {
        lemma_sum_errors_mono(e, a, (b - 1) as nat);
    }
}

/// Stepping `a` then `b` times is stepping `a + b` times.
proof fn lemma_lcg_after_add(state: u16, a: nat, b: nat)
    ensures
        lcg_after(lcg_after(state, a), b) == lcg_after(state, a + b),
    decreases b,
{
    if b > 0 {
        lemma_lcg_after_add(state, a, (b - 1) as nat);
    }
}

/// When every chunk before `i` decodes and chunk `i` fails, `i` is the
/// first failure.
proof fn lemma_no_failure_before(d: Seq<u8>, seed: u16, i: nat)
    requires
        1 <= i <= 6,
        forall|j: nat| 1 <= j < i ==> #[trigger] chunk_decode(d, seed, j) is Some,
        chunk_decode(d, seed, i) is None,
    ensures
        first_failure(d, seed, 1) == i,
    decreases i,
{
    lemma_first_failure_from(d, seed, 1, i);
}

proof fn lemma_first_failure_from(d: Seq<u8>, seed: u16, k: nat, i: nat)
    requires
        1 <= k <= i <= 6,
        forall|j: nat| k <= j < i ==> #[trigger] chunk_decode(d, seed, j) is Some,
        chunk_decode(d, seed, i) is None,
    ensures
        first_failure(d, seed, k) == i,
    decreases i - k,
{
    if k < i {
        lemma_first_failure_from(d, seed, k + 1, i);
    }
}

/// When every chunk decodes there is no failure.
proof fn lemma_all_decoded(d: Seq<u8>, seed: u16)
    requires
        forall|j: nat| 1 <= j <= 6 ==> #[trigger] chunk_decode(d, seed, j) is Some,
    ensures
        first_failure(d, seed, 1) == 7,
{
    reveal_with_fuel(first_failure, 8);
    assert(chunk_decode(d, seed, 1 as nat) is Some);
    assert(chunk_decode(d, seed, 2 as nat) is Some);
    assert(chunk_decode(d, seed, 3 as nat) is Some);
    assert(chunk_decode(d, seed, 4 as nat) is Some);
    assert(chunk_decode(d, seed, 5 as nat) is Some);
    assert(chunk_decode(d, seed, 6 as nat) is Some);
}

/// The coded value of chunk `i` of a clean frame carrying the chunks `c`:
/// the Golay codeword of u_0; the Golay (u_1..u_3) or Hamming (u_4..u_6)
/// codeword masked with the PN sequence seeded by u_0; u_7 as it is.
pub open spec fn clean_chunk(c: Seq<u16>, i: nat) -> nat {
    if i == 0 {
        golay::standard::spec_encode(c[0]) as nat
    } else if i <= 3 {
        (golay::standard::spec_encode(c[i as int]) ^ (pn_mask(c[0], i) as u32)) as nat
    } else if i <= 6 {
        ((hamming::standard::spec_encode(c[i as int]) as u32) ^ (pn_mask(c[0], i) as u32)) as nat
    } else {
        c[7] as nat
    }
}

/// A clean frame decodes to the chunks it carries, with no corrections:
/// when each chunk of the frame descrambles to its clean coded value,
/// decoding gives back u_0..u_7 and no errors.
pub proof fn lemma_clean_frame(dibits: Seq<Dibit>, c: Seq<u16>, r: Result<VoiceFrame, P25Error>)
    requires
        dibits.len() == 72,
        c.len() == 8,
        forall|i: int| 0 <= i < 4 ==> #[trigger] c[i] < 0x1000,
        forall|i: int| 4 <= i < 7 ==> #[trigger] c[i] < 0x800,
        c[7] < 0x80,
        forall|i: nat| i < 8 ==> #[trigger] chunk_value(dibit_values(dibits), i) == clean_chunk(c, i),
        frame_decoded(dibits, r),
    ensures
        r matches Ok(f) && (forall|i: int| 0 <= i < 8 ==> #[trigger] f.chunks@[i] == c[i]) && (forall|i: int|
            0 <= i < 7 ==> #[trigger] f.errors@[i] == 0),
{
    let d = dibit_values(dibits);
    golay::standard::lemma_roundtrip(c[0]);
    assert(chunk_value(d, 0) == clean_chunk(c, 0));
    assert(chunk_value(d, 0) as u32 == golay::standard::spec_encode(c[0]));
    reveal(chunk_decode);
    assert forall|i: nat| 1 <= i <= 6 implies #[trigger] chunk_decode(d, c[0], i) == Some((c[i as int], 0usize)) by {
        assert(chunk_value(d, i) == clean_chunk(c, i));
        let m = pn_mask(c[0], i) as u32;
        if i <= 3 {
            let e = golay::standard::spec_encode(c[i as int]);
            crate::p25::bitwise::lemma_xor_cancel(e, m, 0, 0);
            golay::standard::lemma_roundtrip(c[i as int]);
            assert((chunk_value(d, i) as u32) == e ^ m);
        } else {
            let e = hamming::standard::spec_encode(c[i as int]);
            crate::p25::bitwise::lemma_xor_cancel(e as u32, m, 0, 0);
            hamming::standard::lemma_roundtrip(c[i as int]);
            assert((chunk_value(d, i) as u32) == (e as u32) ^ m);
            assert((((e as u32) ^ m) ^ m) as u16 == e);
        }
    }
    reveal_with_fuel(first_failure, 7);
    assert(first_failure(d, c[0], 1) == 7);
    assert(chunk_value(d, 7) == clean_chunk(c, 7));
}

} // verus!

//! Voice frame deinterleaver (zigzag descrambler).
//!
//! An IMBE voice frame consists of 72 dibits (144 bits). The bits are
//! interleaved across 8 chunks (u_0..u_7) using a zigzag pattern that
//! alternates between the high (MSB) and low (LSB) bit of each dibit,
//! stepping 3 dibits forward at each position.
//!
//! Chunk sizes: u_0=23, u_1=23, u_2=23, u_3=23, u_4=15, u_5=15, u_6=15, u_7=7.
//! Total: 144 bits = 72 dibits x 2 bits.

use vstd::prelude::*;
use crate::p25::types::Dibit;

verus! {

broadcast use crate::p25::types::lemma_dibit_bound;

/// Number of dibits in a single IMBE voice frame.
pub const VOICE_FRAME_DIBITS: usize = 72;

/// A zigzag segment: starting dibit index, whether to start with the high
/// bit, and how many bits to extract.
#[derive(Clone, Copy)]
struct Segment {
    start: usize,
    start_high: bool,
    count: usize,
}

/// The zigzag segments of chunk `index` (u_0 through u_7), each as
/// (start dibit, starts with the high bit, bit count); the chunk is the
/// concatenation of its segments' bits, MSB first.
pub open spec fn chunk_segments(index: nat) -> Seq<(nat, bool, nat)> {
    if index == 0 {
        seq![(0nat, true, 23nat)]
    } else if index == 1 {
        seq![(69nat, false, 1nat), (0nat, false, 22nat)]
    } else if index == 2 {
        seq![(66nat, false, 2nat), (1nat, true, 21nat)]
    } else if index == 3 {
        seq![(64nat, false, 3nat), (1nat, false, 20nat)]
    } else if index == 4 {
        seq![(61nat, false, 4nat), (2nat, true, 11nat)]
    } else if index == 5 {
        seq![(35nat, false, 13nat), (2nat, false, 2nat)]
    } else if index == 6 {
        seq![(8nat, false, 15nat)]
    } else {
        seq![(53nat, true, 7nat)]
    }
}

/// The number of bits in chunk `index`.
pub open spec fn chunk_width(index: nat) -> nat {
    if index < 4 {
        23
    } else if index < 7 {
        15
    } else {
        7
    }
}

/// Bit `k` of a zigzag segment: from dibit `start + 3k`, the high bit when
/// `k` has the parity of a high start, else the low bit.
pub open spec fn segment_bit(d: Seq<u8>, start: nat, high: bool, k: nat) -> nat {
    let v = d[(start + 3 * k) as int] as nat;
    let use_high = if k % 2 == 0 {
        high
    } else {
        !high
    };
    if use_high {
        v / 2
    } else {
        v % 2
    }
}

/// The first `n` bits of a zigzag segment appended to `acc`, MSB first.
pub open spec fn segment_word(d: Seq<u8>, acc: nat, start: nat, high: bool, n: nat) -> nat
    decreases n,
{
    if n == 0 {
        acc
    } else {
        segment_word(d, acc, start, high, (n - 1) as nat) * 2 + segment_bit(d, start, high, (n - 1) as nat)
    }
}

/// The bits of the first `k` segments of a chunk, MSB first.
pub open spec fn segments_word(d: Seq<u8>, segs: Seq<(nat, bool, nat)>, k: nat) -> nat
    decreases k,
{
    if k == 0 {
        0
    } else {
        let s = segs[k - 1];
        segment_word(d, segments_word(d, segs, (k - 1) as nat), s.0, s.1, s.2)
    }
}

/// The number of bits in the first `k` segments.
pub open spec fn segments_bits(segs: Seq<(nat, bool, nat)>, k: nat) -> nat
    decreases k,
{
    if k == 0 {
        0
    } else {
        segments_bits(segs, (k - 1) as nat) + segs[k - 1].2
    }
}

/// The segments of each chunk add up to its width.
proof fn lemma_chunk_width(index: nat)
    requires
        index < 8,
    ensures
        segments_bits(chunk_segments(index), chunk_segments(index).len()) == chunk_width(index),
        chunk_segments(index).len() <= 2,
        chunk_width(index) <= 23,
{
    reveal_with_fuel(segments_bits, 3);
}

/// The value of chunk `index` of the frame with dibit values `d`.
pub open spec fn chunk_value(d: Seq<u8>, index: nat) -> nat {
    segments_word(d, chunk_segments(index), chunk_segments(index).len())
}

/// The segments of chunk `index`, padded with empty segments to two.
fn segments_of(index: usize) -> (r: [Segment; 2])
    requires
        index < 8,
    ensures
        forall|k: int| 0 <= k < chunk_segments(index as nat).len() ==> (r@[k].start as nat, r@[k].start_high, r@[k].count as nat) == #[trigger] chunk_segments(index as nat)[k],
        forall|k: int| chunk_segments(index as nat).len() <= k < 2 ==> #[trigger] r@[k].count == 0,
        forall|k: int| 0 <= k < 2 ==> #[trigger] r@[k].start + 3 * r@[k].count <= 74,
{
    let empty = Segment { start: 0, start_high: false, count: 0 };
    match index {
        0 => [Segment { start: 0, start_high: true, count: 23 }, empty],
        1 => [Segment { start: 69, start_high: false, count: 1 }, Segment { start: 0, start_high: false, count: 22 }],
        2 => [Segment { start: 66, start_high: false, count: 2 }, Segment { start: 1, start_high: true, count: 21 }],
        3 => [Segment { start: 64, start_high: false, count: 3 }, Segment { start: 1, start_high: false, count: 20 }],
        4 => [Segment { start: 61, start_high: false, count: 4 }, Segment { start: 2, start_high: true, count: 11 }],
        5 => [Segment { start: 35, start_high: false, count: 13 }, Segment { start: 2, start_high: false, count: 2 }],
        6 => [Segment { start: 8, start_high: false, count: 15 }, empty],
        _ => [Segment { start: 53, start_high: true, count: 7 }, empty],
    }
}

/// The 2-bit values of a run of dibits.
pub open spec fn dibit_values(s: Seq<Dibit>) -> Seq<u8> {
    s.map_values(|d: Dibit| d@)
}

/// A word built from `n` bits is below 2^n.
proof fn lemma_segment_word_bound(d: Seq<u8>, acc: nat, start: nat, high: bool, n: nat, w: nat)
    requires
        acc < vstd::arithmetic::power2::pow2(w),
        forall|i: int| 0 <= i < d.len() ==> d[i] < 4,
        start + 3 * n <= d.len() + 2,
    ensures
        segment_word(d, acc, start, high, n) < vstd::arithmetic::power2::pow2(w + n),
    decreases n,
{
    if n > 0 {
        lemma_segment_word_bound(d, acc, start, high, (n - 1) as nat, w);
        vstd::arithmetic::power2::lemma_pow2_unfold(w + n);
        assert(segment_bit(d, start, high, (n - 1) as nat) < 2);
    }
}

/// Descramble chunk `index` (0..8) from the given voice frame dibits.
///
/// Returns the chunk as a right-aligned integer: u_0..u_3 are 23 bits,
/// u_4..u_6 are 15 bits, and u_7 is 7 bits.
pub fn descramble(dibits: &[Dibit; 72], index: usize) -> (r: u32)
    requires
        index < 8,
    ensures
        r == chunk_value(dibit_values(dibits@), index as nat),
        r < vstd::arithmetic::power2::pow2(chunk_width(index as nat)),
{
    let ghost d = dibit_values(dibits@);
    let segments = segments_of(index);
    let ghost segs = chunk_segments(index as nat);
    let mut word: u32 = 0;
    let mut bits_so_far: usize = 0;
    proof {
        vstd::arithmetic::power2::lemma2_to64();
        lemma_chunk_width(index as nat);
    }

    let mut s: usize = 0;
    while s < 2
        invariant
            s <= 2,
            index < 8,
            d == dibit_values(dibits@),
            d.len() == 72,
            forall|i: int| 0 <= i < 72 ==> d[i] < 4,
            segs == chunk_segments(index as nat),
            forall|k: int| 0 <= k < segs.len() ==> (segments@[k].start as nat, segments@[k].start_high, segments@[k].count as nat) == #[trigger] segs[k],
            forall|k: int| segs.len() <= k < 2 ==> #[trigger] segments@[k].count == 0,
            forall|k: int| 0 <= k < 2 ==> #[trigger] segments@[k].start + 3 * segments@[k].count <= 74,
            word == segments_word(d, segs, if s as nat <= segs.len() { s as nat } else { segs.len() }),
            word < vstd::arithmetic::power2::pow2(bits_so_far as nat),
            bits_so_far == segments_bits(segs, if s as nat <= segs.len() { s as nat } else { segs.len() }),
            segments_bits(segs, segs.len()) == chunk_width(index as nat),
            segs.len() <= 2,
            chunk_width(index as nat) <= 23,
            forall|k: nat| k <= segs.len() ==> #[trigger] segments_bits(segs, k) <= segments_bits(segs, segs.len()),
        ensures
            word == chunk_value(d, index as nat),
            word < vstd::arithmetic::power2::pow2(chunk_width(index as nat)),
        decreases 2 - s,
    {
        let segment = segments[s];
        if segment.count == 0 {
            proof {
                assert(s >= segs.len());
            }
            break;
        }
        proof {
            assert(s < segs.len());
            assert(segments_bits(segs, (s + 1) as nat) <= segments_bits(segs, segs.len()));
        }
        proof {
            assert(s < segs.len());
        }

        let mut dibit_index = segment.start;
        let mut use_high = segment.start_high;
        let ghost acc: nat = word as nat;
        let mut k: usize = 0;
        while k < segment.count
            invariant
                k <= segment.count,
                segment.start + 3 * segment.count <= 74,
                dibit_index == segment.start + 3 * k,
                use_high == (if k % 2 == 0 { segment.start_high } else { !segment.start_high }),
                d == dibit_values(dibits@),
                d.len() == 72,
                forall|i: int| 0 <= i < 72 ==> d[i] < 4,
                word == segment_word(d, acc, segment.start as nat, segment.start_high, k as nat),
                acc < vstd::arithmetic::power2::pow2(bits_so_far as nat),
                bits_so_far <= 23,
                bits_so_far + segment.count <= 23,
            decreases segment.count - k,
        {
            let dibit = dibits[dibit_index].bits();
            let bit = if use_high {
                dibit / 2
            } else {
                dibit % 2
            };
            proof {
                assert(d[dibit_index as int] == dibit);
                lemma_segment_word_bound(d, acc, segment.start as nat, segment.start_high, k as nat, bits_so_far as nat);
                vstd::arithmetic::power2::lemma_pow2_strictly_increases((bits_so_far + k) as nat, 31);
                vstd::arithmetic::power2::lemma2_to64();
                assert(word < 0x8000_0000);
            }
            word = word * 2 + bit as u32;

            dibit_index += 3;
            use_high = !use_high;
            k += 1;
        }
        proof {
            lemma_segment_word_bound(d, acc, segment.start as nat, segment.start_high, segment.count as nat, bits_so_far as nat);
        }
        bits_so_far = bits_so_far + segment.count;
        s += 1;
    }
    proof {
        if s == 2 {
            assert(segs.len() <= 2);
        }
    }
    word
}

/// With every dibit 0b11, each bit of a segment is one, so `n` of them
/// appended to `acc` give acc * 2^n + 2^n - 1.
proof fn lemma_segment_all_ones(d: Seq<u8>, acc: nat, start: nat, high: bool, n: nat)
    requires
        forall|i: int| 0 <= i < d.len() ==> d[i] == 3,
        start + 3 * n <= d.len() + 2,
    ensures
        segment_word(d, acc, start, high, n) == acc * vstd::arithmetic::power2::pow2(n) + vstd::arithmetic::power2::pow2(n) - 1,
    decreases n,
{
    if n > 0 {
        vstd::arithmetic::power2::lemma_pow2_unfold(n);
        let m = (n - 1) as nat;
        lemma_segment_all_ones(d, acc, start, high, m);
        assert(segment_bit(d, start, high, m) == 1);
        let p = vstd::arithmetic::power2::pow2(m);
        vstd::arithmetic::power2::lemma_pow2_pos(m);
        assert((acc * p + p - 1) * 2 + 1 == acc * (2 * p) + 2 * p - 1) by (nonlinear_arith)
            requires
                p >= 1,
        ;
    } else {
        vstd::arithmetic::power2::lemma2_to64();
        assert(acc * 1 == acc);
    }
}

/// A frame of all-ones dibits descrambles to all-ones chunks: chunk
/// `index` is 2^w - 1 for its width w (23, 15 or 7 bits).
pub proof fn lemma_all_ones(d: Seq<u8>, index: nat)
    requires
        d.len() == 72,
        forall|i: int| 0 <= i < d.len() ==> d[i] == 3,
        index < 8,
    ensures
        chunk_value(d, index) == vstd::arithmetic::power2::pow2(chunk_width(index)) - 1,
{
    let segs = chunk_segments(index);
    lemma_chunk_width(index);
    reveal_with_fuel(segments_bits, 3);
    let s0 = segs[0];
    lemma_segment_all_ones(d, 0, s0.0, s0.1, s0.2);
    assert(segments_word(d, segs, 1) == segment_word(d, segments_word(d, segs, 0), s0.0, s0.1, s0.2));
    assert(0 * vstd::arithmetic::power2::pow2(s0.2) == 0);
    if segs.len() == 2 {
        let s1 = segs[1];
        let a = segments_word(d, segs, 1);
        lemma_segment_all_ones(d, a, s1.0, s1.1, s1.2);
        let p0 = vstd::arithmetic::power2::pow2(s0.2);
        let p1 = vstd::arithmetic::power2::pow2(s1.2);
        vstd::arithmetic::power2::lemma_pow2_adds(s0.2, s1.2);
        vstd::arithmetic::power2::lemma_pow2_pos(s0.2);
        vstd::arithmetic::power2::lemma_pow2_pos(s1.2);
        assert((p0 - 1) * p1 + p1 - 1 == p0 * p1 - 1) by (nonlinear_arith)
            requires
                p0 >= 1,
                p1 >= 1,
        ;
    }
}

/// Whether a zigzag segment takes the high (or low) bit of dibit `t`.
pub open spec fn segment_covers(seg: (nat, bool, nat), t: nat, high: bool) -> bool {
    let k = (t - seg.0) / 3;
    &&& t >= seg.0
    &&& (t - seg.0) % 3 == 0
    &&& k < seg.2
    &&& (if k % 2 == 0 { seg.1 } else { !seg.1 }) == high
}

/// Whether chunk `index` takes the high (or low) bit of dibit `t`.
pub open spec fn chunk_covers(index: nat, t: nat, high: bool) -> bool {
    let segs = chunk_segments(index);
    segment_covers(segs[0], t, high) || (segs.len() == 2 && segment_covers(segs[1], t, high))
}

/// The chunk that takes the high (or low) bit of each dibit, written out.
pub open spec fn bit_owner(t: nat, high: bool) -> nat {
    if high {
        if t == 0 { 0 } else if t == 1 { 2 } else if t == 2 { 4 } else if t == 3 { 1 } else if t == 4 { 3 } else if t == 5 { 5 } else if t == 6 { 0 } else if t == 7 { 2 } else if t == 8 { 4 } else if t == 9 { 1 } else if t == 10 { 3 } else if t == 11 { 6 } else if t == 12 { 0 } else if t == 13 { 2 } else if t == 14 { 4 } else if t == 15 { 1 } else if t == 16 { 3 } else if t == 17 { 6 } else if t == 18 { 0 } else if t == 19 { 2 } else if t == 20 { 4 } else if t == 21 { 1 } else if t == 22 { 3 } else if t == 23 { 6 } else if t == 24 { 0 } else if t == 25 { 2 } else if t == 26 { 4 } else if t == 27 { 1 } else if t == 28 { 3 } else if t == 29 { 6 } else if t == 30 { 0 } else if t == 31 { 2 } else if t == 32 { 4 } else if t == 33 { 1 } else if t == 34 { 3 } else if t == 35 { 6 } else if t == 36 { 0 } else if t == 37 { 2 } else if t == 38 { 5 } else if t == 39 { 1 } else if t == 40 { 3 } else if t == 41 { 6 } else if t == 42 { 0 } else if t == 43 { 2 } else if t == 44 { 5 } else if t == 45 { 1 } else if t == 46 { 3 } else if t == 47 { 6 } else if t == 48 { 0 } else if t == 49 { 2 } else if t == 50 { 5 } else if t == 51 { 1 } else if t == 52 { 3 } else if t == 53 { 7 } else if t == 54 { 0 } else if t == 55 { 2 } else if t == 56 { 5 } else if t == 57 { 1 } else if t == 58 { 3 } else if t == 59 { 7 } else if t == 60 { 0 } else if t == 61 { 2 } else if t == 62 { 5 } else if t == 63 { 1 } else if t == 64 { 4 } else if t == 65 { 7 } else if t == 66 { 0 } else if t == 67 { 3 } else if t == 68 { 5 } else if t == 69 { 2 } else if t == 70 { 4 } else if t == 71 { 7 } else { 8 }
    } else {
        if t == 0 { 1 } else if t == 1 { 3 } else if t == 2 { 5 } else if t == 3 { 0 } else if t == 4 { 2 } else if t == 5 { 4 } else if t == 6 { 1 } else if t == 7 { 3 } else if t == 8 { 6 } else if t == 9 { 0 } else if t == 10 { 2 } else if t == 11 { 4 } else if t == 12 { 1 } else if t == 13 { 3 } else if t == 14 { 6 } else if t == 15 { 0 } else if t == 16 { 2 } else if t == 17 { 4 } else if t == 18 { 1 } else if t == 19 { 3 } else if t == 20 { 6 } else if t == 21 { 0 } else if t == 22 { 2 } else if t == 23 { 4 } else if t == 24 { 1 } else if t == 25 { 3 } else if t == 26 { 6 } else if t == 27 { 0 } else if t == 28 { 2 } else if t == 29 { 4 } else if t == 30 { 1 } else if t == 31 { 3 } else if t == 32 { 6 } else if t == 33 { 0 } else if t == 34 { 2 } else if t == 35 { 5 } else if t == 36 { 1 } else if t == 37 { 3 } else if t == 38 { 6 } else if t == 39 { 0 } else if t == 40 { 2 } else if t == 41 { 5 } else if t == 42 { 1 } else if t == 43 { 3 } else if t == 44 { 6 } else if t == 45 { 0 } else if t == 46 { 2 } else if t == 47 { 5 } else if t == 48 { 1 } else if t == 49 { 3 } else if t == 50 { 6 } else if t == 51 { 0 } else if t == 52 { 2 } else if t == 53 { 5 } else if t == 54 { 1 } else if t == 55 { 3 } else if t == 56 { 7 } else if t == 57 { 0 } else if t == 58 { 2 } else if t == 59 { 5 } else if t == 60 { 1 } else if t == 61 { 4 } else if t == 62 { 7 } else if t == 63 { 0 } else if t == 64 { 3 } else if t == 65 { 5 } else if t == 66 { 2 } else if t == 67 { 4 } else if t == 68 { 7 } else if t == 69 { 1 } else if t == 70 { 3 } else if t == 71 { 5 } else { 8 }
    }
}

/// Chunk `index` takes a bit exactly when the written-out table names it.
proof fn lemma_chunk_covers(index: nat, t: nat, high: bool)
    requires
        index < 8,
        t < 72,
    ensures
        chunk_covers(index, t, high) <==> bit_owner(t, high) == index,
{
    assert(t == 0 || t == 1 || t == 2 || t == 3 || t == 4 || t == 5 || t == 6 || t == 7 || t == 8 || t == 9 || t == 10 || t == 11 || t == 12 || t == 13 || t == 14 || t == 15 || t == 16 || t == 17 || t == 18 || t == 19 || t == 20 || t == 21 || t == 22 || t == 23 || t == 24 || t == 25 || t == 26 || t == 27 || t == 28 || t == 29 || t == 30 || t == 31 || t == 32 || t == 33 || t == 34 || t == 35 || t == 36 || t == 37 || t == 38 || t == 39 || t == 40 || t == 41 || t == 42 || t == 43 || t == 44 || t == 45 || t == 46 || t == 47 || t == 48 || t == 49 || t == 50 || t == 51 || t == 52 || t == 53 || t == 54 || t == 55 || t == 56 || t == 57 || t == 58 || t == 59 || t == 60 || t == 61 || t == 62 || t == 63 || t == 64 || t == 65 || t == 66 || t == 67 || t == 68 || t == 69 || t == 70 || t == 71);
}

/// Every one of the 144 bits of a voice frame goes to exactly one chunk:
/// the chunk that the table names, and no other.
pub proof fn lemma_bits_covered_once(t: nat, high: bool)
    requires
        t < 72,
    ensures
        bit_owner(t, high) < 8,
        chunk_covers(bit_owner(t, high), t, high),
        forall|i: nat| i < 8 && #[trigger] chunk_covers(i, t, high) ==> i == bit_owner(t, high),
{
    assert(bit_owner(t, high) < 8) by {
        assert(t == 0 || t == 1 || t == 2 || t == 3 || t == 4 || t == 5 || t == 6 || t == 7 || t == 8 || t == 9 || t == 10 || t == 11 || t == 12 || t == 13 || t == 14 || t == 15 || t == 16 || t == 17 || t == 18 || t == 19 || t == 20 || t == 21 || t == 22 || t == 23 || t == 24 || t == 25 || t == 26 || t == 27 || t == 28 || t == 29 || t == 30 || t == 31 || t == 32 || t == 33 || t == 34 || t == 35 || t == 36 || t == 37 || t == 38 || t == 39 || t == 40 || t == 41 || t == 42 || t == 43 || t == 44 || t == 45 || t == 46 || t == 47 || t == 48 || t == 49 || t == 50 || t == 51 || t == 52 || t == 53 || t == 54 || t == 55 || t == 56 || t == 57 || t == 58 || t == 59 || t == 60 || t == 61 || t == 62 || t == 63 || t == 64 || t == 65 || t == 66 || t == 67 || t == 68 || t == 69 || t == 70 || t == 71);
    }
    lemma_chunk_covers(bit_owner(t, high), t, high);
    assert forall|i: nat| i < 8 && #[trigger] chunk_covers(i, t, high) implies i == bit_owner(t, high) by {
        lemma_chunk_covers(i, t, high);
    }
}

/// Whether a zigzag segment takes either bit of dibit `t`.
pub open spec fn segment_hits(start: nat, n: nat, t: nat) -> bool {
    exists|k: nat| k < n && #[trigger] (start + 3 * k) == t
}

/// With only dibit `t` set to 0b11, a segment's bits appended to `acc`
/// vanish exactly when `acc` does and the segment misses dibit `t`.
proof fn lemma_segment_one_hot(d: Seq<u8>, t: nat, acc: nat, start: nat, high: bool, n: nat)
    requires
        d.len() == 72,
        t < 72,
        forall|i: int| 0 <= i < 72 ==> #[trigger] d[i] == if i == t { 3u8 } else { 0u8 },
        start + 3 * n <= 74,
    ensures
        (segment_word(d, acc, start, high, n) == 0) <==> (acc == 0 && !segment_hits(start, n, t)),
    decreases n,
{
    if n > 0 {
        let m = (n - 1) as nat;
        lemma_segment_one_hot(d, t, acc, start, high, m);
        let bit = segment_bit(d, start, high, m);
        assert(bit == if start + 3 * m == t { 1nat } else { 0nat });
        if segment_hits(start, n, t) && !segment_hits(start, m, t) {
            let k = choose|k: nat| k < n && #[trigger] (start + 3 * k) == t;
            assert(k == m);
        }
        if segment_hits(start, m, t) {
            let k = choose|k: nat| k < m && #[trigger] (start + 3 * k) == t;
            assert(k < n && start + 3 * k == t);
        }
        if start + 3 * m == t {
            assert(m < n && start + 3 * m == t);
        }
    }
}

/// A segment takes a bit of dibit `t` exactly when it covers its high or
/// its low bit.
proof fn lemma_hits_covers(seg: (nat, bool, nat), t: nat)
    ensures
        segment_hits(seg.0, seg.2, t) <==> (segment_covers(seg, t, true) || segment_covers(seg, t, false)),
{
    if t >= seg.0 && (t - seg.0) % 3 == 0 && (t - seg.0) / 3 < seg.2 {
        let k = ((t - seg.0) / 3) as nat;
        assert(seg.0 + 3 * k == t);
    }
    if segment_hits(seg.0, seg.2, t) {
        let k = choose|k: nat| k < seg.2 && #[trigger] (seg.0 + 3 * k) == t;
        assert((t - seg.0) / 3 == k);
    }
}

/// A frame whose only non-zero dibit is 0b11 at `t` has exactly two
/// non-zero chunks: the one that takes the high bit of `t` and the one
/// that takes its low bit, which differ.
pub proof fn lemma_single_dibit(d: Seq<u8>, t: nat)
    requires
        d.len() == 72,
        t < 72,
        forall|i: int| 0 <= i < 72 ==> #[trigger] d[i] == if i == t { 3u8 } else { 0u8 },
    ensures
        bit_owner(t, true) != bit_owner(t, false),
        forall|i: nat| i < 8 ==> (#[trigger] chunk_value(d, i) != 0 <==> (i == bit_owner(t, true) || i == bit_owner(
            t,
            false,
        ))),
{
    assert(bit_owner(t, true) != bit_owner(t, false)) by {
        assert(t == 0 || t == 1 || t == 2 || t == 3 || t == 4 || t == 5 || t == 6 || t == 7 || t == 8 || t == 9 || t == 10 || t == 11 || t == 12 || t == 13 || t == 14 || t == 15 || t == 16 || t == 17 || t == 18 || t == 19 || t == 20 || t == 21 || t == 22 || t == 23 || t == 24 || t == 25 || t == 26 || t == 27 || t == 28 || t == 29 || t == 30 || t == 31 || t == 32 || t == 33 || t == 34 || t == 35 || t == 36 || t == 37 || t == 38 || t == 39 || t == 40 || t == 41 || t == 42 || t == 43 || t == 44 || t == 45 || t == 46 || t == 47 || t == 48 || t == 49 || t == 50 || t == 51 || t == 52 || t == 53 || t == 54 || t == 55 || t == 56 || t == 57 || t == 58 || t == 59 || t == 60 || t == 61 || t == 62 || t == 63 || t == 64 || t == 65 || t == 66 || t == 67 || t == 68 || t == 69 || t == 70 || t == 71);
    }
    assert forall|i: nat| i < 8 implies (#[trigger] chunk_value(d, i) != 0 <==> (i == bit_owner(t, true) || i
        == bit_owner(t, false))) by {
        let segs = chunk_segments(i);
        lemma_chunk_width(i);
        lemma_chunk_covers(i, t, true);
        lemma_chunk_covers(i, t, false);
        let s0 = segs[0];
        reveal_with_fuel(segments_word, 3);
        assert(segments_word(d, segs, 1) == segment_word(d, 0, s0.0, s0.1, s0.2));
        lemma_segment_one_hot(d, t, 0, s0.0, s0.1, s0.2);
        lemma_hits_covers(s0, t);
        if segs.len() == 2 {
            let s1 = segs[1];
            lemma_segment_one_hot(d, t, segments_word(d, segs, 1), s1.0, s1.1, s1.2);
            lemma_hits_covers(s1, t);
        }
    }
}

} // verus!

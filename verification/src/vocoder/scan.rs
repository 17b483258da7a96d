//! Scanning procedure used in IMBE descrambling.
//!
//! The scanning procedure extracts voiced/unvoiced decisions, the quantized
//! gain index fragment, and spectral amplitude bits from the prioritized
//! chunks u_0..u_7. See TIA-102.BABA section on scanning procedures.

use vstd::prelude::*;
use vstd::arithmetic::power2::pow2;
use super::params::BaseParams;

verus! {

/// The 22-bit vector formed by u_4 (11 bits) followed by u_5 (11 bits).
pub open spec fn separator_word(u4: u32, u5: u32) -> u32 {
    (u4 << 11u32) | u5
}

/// Decoded separator fields from the boundary between the two scanning procedures.
///
/// Between the chunks covered by the two scanning procedures, there is a 22-bit
/// vector made up of u_4 and u_5 that contains the voiced/unvoiced vector,
/// part of the quantized gain index, and the initial bits in the second
/// scanning procedure.
#[derive(Debug, Copy, Clone)]
pub struct ScanSeparator {
    /// Voiced/unvoiced boolean bit vector b_1, with K bits (one per band).
    pub voiced: u32,
    /// Bits 1 and 2 of the 6-bit quantized gain index b_2.
    pub gain_index_part: u32,
    /// Remaining scanned bits from u_4/u_5 used in the scanning procedure.
    pub scanned: u32,
}

impl ScanSeparator {
    /// Create a new `ScanSeparator` from the given chunks and frame parameters.
    ///
    /// Splits the 22-bit vector of u_4 and u_5 into its first K bits (the
    /// voiced/unvoiced decisions), the next 2 bits (gain index bits) and the
    /// remaining 20 - K bits.
    pub fn new(chunks: &[u32; 8], params: &BaseParams) -> (r: Self)
        requires
            params.band_count < 20,
        ensures
            ({
                let parts = separator_word(chunks@[4], chunks@[5]);
                let k = params.band_count as nat;
                &&& r.voiced == parts as nat / pow2((22 - k) as nat)
                &&& r.gain_index_part == (parts as nat / pow2((20 - k) as nat)) % 4
                &&& r.scanned == parts as nat % pow2((20 - k) as nat)
            }),
    {
        let parts = (chunks[4] << 11) | chunks[5];
        let k = params.band_count;
        let low = 20 - k;
        let high = 22 - k;
        proof {
            vstd::bits::lemma_u32_shr_is_div(parts, high);
            vstd::bits::lemma_u32_shr_is_div(parts, low);
            vstd::arithmetic::power2::lemma2_to64();
            vstd::arithmetic::power2::lemma_pow2_strictly_increases(low as nat, 32);
            vstd::bits::lemma_u32_shl_is_mul(1, low);
            vstd::arithmetic::power2::lemma_pow2_pos(low as nat);
        }
        let modulus = 1u32 << low;
        Self { voiced: parts >> high, gain_index_part: (parts >> low) % 4, scanned: parts % modulus }
    }
}

/// Segment `step` of the scan, as (bits, width): the last 3 bits of u_0,
/// all of u_1, u_2 and u_3, the separator remainder, all of u_6, and the
/// first 3 of the 7 bits of u_7.
pub open spec fn scan_segment(c: Seq<u32>, separator: (u32, u8), step: nat) -> (u32, u8) {
    if step == 0 {
        (c[0] % 8, 3)
    } else if step <= 3 {
        (c[step as int], 12)
    } else if step == 4 {
        separator
    } else if step == 5 {
        (c[6], 11)
    } else {
        (c[7] / 16, 3)
    }
}

/// Iterator over the chunk segments covered in the scanning procedure.
///
/// Yields 7 segments as (bits, width) tuples, walking through the prioritized
/// chunks in scan order: partial u_0, full u_1..u_3, separator remainder,
/// full u_6, and partial u_7.
#[derive(Debug, Clone, Copy)]
pub struct ScanChunks {
    /// Chunks to scan.
    chunks: [u32; 8],
    /// Separator chunk and its width in bits.
    separator: (u32, u8),
    /// Number of segments yielded so far (of 7).
    position: u8,
}

impl ScanChunks {
    /// The chunks scanned.
    pub closed spec fn chunks(&self) -> Seq<u32> {
        self.chunks@
    }

    /// The separator segment, as (bits, width).
    pub closed spec fn separator(&self) -> (u32, u8) {
        self.separator
    }

    /// The number of segments yielded so far.
    pub closed spec fn position(&self) -> nat {
        self.position as nat
    }

    /// The iterator's invariant: at most 7 segments, a separator of 1 to
    /// 32 bits.
    pub open spec fn wf(&self) -> bool {
        &&& self.position() <= 7
        &&& 1 <= self.separator().1 <= 32
    }

    /// Create a new `ScanChunks` iterator over the given chunks.
    ///
    /// The `scanned` value is the remainder bits from [`ScanSeparator`].
    /// The separator width is `20 - K` bits where K is the band count.
    pub fn new(chunks: &[u32; 8], scanned: u32, params: &BaseParams) -> (r: Self)
        requires
            params.band_count < 20,
        ensures
            r.wf(),
            r.chunks() == chunks@,
            r.separator() == (scanned, (20 - params.band_count) as u8),
            r.position() == 0,
    {
        Self { chunks: *chunks, separator: (scanned, (20 - params.band_count) as u8), position: 0 }
    }

    /// The next segment and the number of its least significant bits to
    /// use, or `None` after all 7.
    pub fn next(&mut self) -> (r: Option<(u32, u8)>)
        requires
            old(self).wf(),
        ensures
            final(self).wf(),
            final(self).chunks() == old(self).chunks(),
            final(self).separator() == old(self).separator(),
            old(self).position() < 7 ==> r == Some(scan_segment(old(self).chunks(), old(self).separator(), old(self).position()))
                && final(self).position() == old(self).position() + 1,
            old(self).position() >= 7 ==> r is None && final(self).position() == old(self).position(),
    {
        if self.position >= 7 {
            return None;
        }
        let step = self.position;
        self.position = self.position + 1;
        Some(
            match step {
                0 => (self.chunks[0] % 8, 3),
                1 => (self.chunks[1], 12),
                2 => (self.chunks[2], 12),
                3 => (self.chunks[3], 12),
                4 => self.separator,
                5 => (self.chunks[6], 11),
                _ => (self.chunks[7] / 16, 3),
            },
        )
    }
}

/// The `w` least significant bits of `v`, most significant first.
pub open spec fn segment_bits(v: u32, w: nat) -> Seq<u32> {
    Seq::new(w, |i: int| (v >> ((w - 1 - i) as u32)) & 1)
}

/// The bits of the first `n` scan segments, in scan order.
pub open spec fn scan_bits(c: Seq<u32>, separator: (u32, u8), n: nat) -> Seq<u32>
    decreases n,
{
    if n == 0 {
        Seq::empty()
    } else {
        let (v, w) = scan_segment(c, separator, (n - 1) as nat);
        scan_bits(c, separator, (n - 1) as nat) + segment_bits(v, w as nat)
    }
}

/// Every bit of a scan is 0 or 1.
pub proof fn lemma_scan_bits_binary(c: Seq<u32>, separator: (u32, u8), n: nat)
    ensures
        forall|i: int| 0 <= i < scan_bits(c, separator, n).len() ==> #[trigger] scan_bits(c, separator, n)[i] <= 1,
    decreases n,
{
    if n > 0 {
        lemma_scan_bits_binary(c, separator, (n - 1) as nat);
        let prev = scan_bits(c, separator, (n - 1) as nat);
        let (v, w) = scan_segment(c, separator, (n - 1) as nat);
        let seg = segment_bits(v, w as nat);
        assert(scan_bits(c, separator, n) == prev + seg);
        assert forall|i: int| 0 <= i < seg.len() implies #[trigger] seg[i] <= 1 by {
            let x = v >> ((w - 1 - i) as u32);
            vstd::bits::lemma_u32_low_bits_mask_is_mod(x, 1);
            vstd::bits::lemma_low_bits_mask_values();
            vstd::arithmetic::power2::lemma2_to64();
        }
    }
}

/// Sequentially extracts individual bits from the scanning procedure.
///
/// Wraps a [`ScanChunks`] iterator and yields one bit at a time, MSB first
/// within each chunk segment.
pub struct ScanBits {
    /// Underlying chunk iterator.
    chunks: ScanChunks,
    /// Current chunk bits.
    current_chunk: u32,
    /// Bits remaining to yield from the current chunk.
    remaining: u8,
}

impl ScanBits {
    /// All bits of the scan, in order.
    pub closed spec fn all_bits(&self) -> Seq<u32> {
        scan_bits(self.chunks.chunks(), self.chunks.separator(), 7)
    }

    /// The number of bits yielded so far.
    pub closed spec fn position(&self) -> nat {
        (scan_bits(self.chunks.chunks(), self.chunks.separator(), self.chunks.position()).len() - self.remaining) as nat
    }

    /// The iterator's invariant.
    pub closed spec fn wf(&self) -> bool {
        &&& self.chunks.wf()
        &&& self.remaining > 0 ==> {
            &&& self.chunks.position() > 0
            &&& self.current_chunk == scan_segment(self.chunks.chunks(), self.chunks.separator(), (self.chunks.position() - 1) as nat).0
            &&& self.remaining <= scan_segment(self.chunks.chunks(), self.chunks.separator(), (self.chunks.position() - 1) as nat).1
        }
    }

    /// The bits yielded so far are bits of the scan.
    pub proof fn lemma_position(&self)
        requires
            self.wf(),
        ensures
            self.position() <= self.all_bits().len(),
    {
        lemma_scan_prefix(self.chunks.chunks(), self.chunks.separator(), self.chunks.position(), 7);
    }

    /// Every bit of the scan is 0 or 1.
    pub proof fn lemma_binary(&self)
        ensures
            forall|i: int| 0 <= i < self.all_bits().len() ==> #[trigger] self.all_bits()[i] <= 1,
    {
        lemma_scan_bits_binary(self.chunks.chunks(), self.chunks.separator(), 7);
    }

    /// Create a new `ScanBits` iterator over the given scan chunks.
    pub fn new(chunks: ScanChunks) -> (r: Self)
        requires
            chunks.wf(),
        ensures
            r.wf(),
            r.all_bits() == scan_bits(chunks.chunks(), chunks.separator(), 7),
            r.position() == scan_bits(chunks.chunks(), chunks.separator(), chunks.position()).len(),
    {
        Self { chunks, current_chunk: 0, remaining: 0 }
    }
}

/// Every segment is at least one bit wide when the separator is.
proof fn lemma_segment_width(c: Seq<u32>, separator: (u32, u8), step: nat)
    requires
        separator.1 >= 1,
    ensures
        scan_segment(c, separator, step).1 >= 1,
{
}

/// The bits of the first `p` segments begin the bits of the first `q`.
proof fn lemma_scan_prefix(c: Seq<u32>, separator: (u32, u8), p: nat, q: nat)
    requires
        p <= q,
        separator.1 >= 1,
    ensures
        scan_bits(c, separator, p).len() <= scan_bits(c, separator, q).len(),
        p < q ==> scan_bits(c, separator, p).len() < scan_bits(c, separator, q).len(),
        forall|i: int| 0 <= i < scan_bits(c, separator, p).len() ==> #[trigger] scan_bits(c, separator, q)[i]
            == scan_bits(c, separator, p)[i],
    decreases q,
{
    if p < q {
        lemma_scan_prefix(c, separator, p, (q - 1) as nat);
        lemma_segment_width(c, separator, (q - 1) as nat);
        let prev = scan_bits(c, separator, (q - 1) as nat);
        let (v, w) = scan_segment(c, separator, (q - 1) as nat);
        assert(scan_bits(c, separator, q) == prev + segment_bits(v, w as nat));
        assert forall|i: int| 0 <= i < scan_bits(c, separator, p).len() implies #[trigger] scan_bits(
            c,
            separator,
            q,
        )[i] == scan_bits(c, separator, p)[i] by {
            assert(scan_bits(c, separator, q)[i] == prev[i]);
        }
    }
}

impl ScanBits {
    /// The next bit (0 or 1) in scan order, or `None` after the last.
    pub fn next(&mut self) -> (r: Option<u32>)
        requires
            old(self).wf(),
        ensures
            final(self).wf(),
            final(self).all_bits() == old(self).all_bits(),
            old(self).position() < old(self).all_bits().len() ==> r == Some(
                old(self).all_bits()[old(self).position() as int],
            ) && final(self).position() == old(self).position() + 1,
            old(self).position() >= old(self).all_bits().len() ==> r is None && final(self).position()
                == old(self).position(),
    {
        let ghost c = self.chunks.chunks();
        let ghost sep = self.chunks.separator();
        proof {
            lemma_scan_prefix(c, sep, self.chunks.position(), 7);
        }
        if self.remaining == 0 {
            match self.chunks.next() {
                None => {
                    return None;
                },
                Some((chunk, width)) => {
                    proof {
                        lemma_segment_width(c, sep, old(self).chunks.position());
                    }
                    self.current_chunk = chunk;
                    self.remaining = width;
                },
            }
        }
        let ghost p = self.chunks.position();
        let ghost r0 = self.remaining;
        proof {
            lemma_scan_prefix(c, sep, p, 7);
            let (v, w) = scan_segment(c, sep, (p - 1) as nat);
            let prev = scan_bits(c, sep, (p - 1) as nat);
            assert(scan_bits(c, sep, p) == prev + segment_bits(v, w as nat));
            let idx = scan_bits(c, sep, p).len() - r0;
            assert(scan_bits(c, sep, p)[idx] == segment_bits(v, w as nat)[w - r0]);
        }
        let bit = (self.current_chunk >> ((self.remaining - 1) as u32)) & 1;
        self.remaining = self.remaining - 1;
        Some(bit)
    }

    /// All the bits not yet yielded, in scan order.
    pub fn collect(self) -> (r: Vec<u32>)
        requires
            self.wf(),
        ensures
            r@ == self.all_bits().subrange(self.position() as int, self.all_bits().len() as int),
    {
        let ghost all = self.all_bits();
        let ghost start = self.position();
        proof {
            lemma_scan_prefix(self.chunks.chunks(), self.chunks.separator(), self.chunks.position(), 7);
        }
        let mut it = self;
        let mut out: Vec<u32> = Vec::new();
        loop
            invariant
                it.wf(),
                it.all_bits() == all,
                start <= it.position() <= all.len(),
                out@ == all.subrange(start as int, it.position() as int),
            ensures
                it.position() == all.len(),
                out@ == all.subrange(start as int, it.position() as int),
            decreases all.len() - it.position(),
        {
            match it.next() {
                Some(b) => {
                    out.push(b);
                    assert(out@ =~= all.subrange(start as int, it.position() as int));
                },
                None => {
                    break;
                },
            }
        }
        out
    }
}

} // verus!

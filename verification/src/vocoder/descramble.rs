//! Initial descrambling of prioritized chunks into voice parameters.
//!
//! Extracts the quantized amplitudes b_m, voiced/unvoiced decisions, and
//! gain index from the prioritized chunks u_0..u_7 using the scanning
//! procedures defined in TIA-102.BABA.

use vstd::prelude::*;
use vstd::arithmetic::power2::{pow2, lemma2_to64, lemma_pow2_adds, lemma_pow2_pos, lemma_pow2_strictly_increases};
use super::consts::MAX_QUANTIZED_AMPLITUDES;
use super::error::VocoderError;
use super::params::{BaseParams, band_count_of};
use super::scan::{ScanBits, ScanChunks, ScanSeparator, scan_bits, separator_word};

verus! {

/// The 8-bit quantized pitch period b_0: the 6 most significant bits of
/// the 12-bit u_0 followed by bits 2 and 1 of u_7.
pub open spec fn period_of(u0: u32, u7: u32) -> u8 {
    ((u0 / 64) % 64 * 4 + (u7 / 2) % 4) as u8
}

/// Compute the 8-bit quantized pitch period b_0 from chunks u_0 and u_7.
///
/// Concatenates the 6 MSBs of u_0 with bits 2 and 1 of u_7 per [p39].
pub fn period(chunks: &[u32; 8]) -> (r: u8)
    ensures
        r == period_of(chunks@[0], chunks@[7]),
{
    ((chunks[0] / 64 % 64) * 4 + chunks[7] / 2 % 4) as u8
}

/// Bits 5..3 of u_0, the two separator gain index bits and bit 3 of u_7,
/// as the 6-bit gain index b_2.
pub open spec fn gain_index_of(u0: u32, index_part: u32, u7: u32) -> nat {
    ((u0 / 8) % 8 * 8 + index_part * 2 + (u7 / 8) % 2) as nat
}

proof fn lemma_gain_index_fields(u0: u32, index_part: u32, u7: u32)
    by (bit_vector)
    requires
        index_part < 4,
    ensures
        ((u0 & 0b111000u32) | (index_part << 1u32) | ((u7 >> 3u32) & 1u32)) == (u0 / 8) % 8 * 8
            + index_part * 2 + (u7 / 8) % 2,
{
}

/// Compute the 6-bit gain index b_2 used to look up the quantized gain value.
///
/// Concatenates bits 5..3 of u_0, the two separator index bits, and bit 3
/// of u_7 per [p39].
pub fn gain_index(chunks: &[u32; 8], index_part: u32) -> (r: usize)
    ensures
        r == ((chunks@[0] & 0b111000u32) | (index_part << 1u32) | ((chunks@[7] >> 3u32) & 1u32)),
        index_part < 4 ==> r == gain_index_of(chunks@[0], index_part, chunks@[7]),
{
    proof {
        if index_part < 4 {
            lemma_gain_index_fields(chunks@[0], index_part, chunks@[7]);
        }
    }
    ((chunks[0] & 0b111000) | (index_part << 1) | ((chunks[7] >> 3) & 1)) as usize
}

/// Descramble the given prioritized chunks u_i into the underlying quantized
/// amplitudes b_m, voiced/unvoiced decisions, and initial gain index b_2.
///
/// `allocation` gives the number of bits of each quantized amplitude b_3,
/// b_4, ... for the frame's harmonic count.
///
/// Returns an error if the scan bit count doesn't match the bit allocation
/// table (indicates a logic bug, not an RF condition).
pub fn descramble(chunks: &[u32; 8], params: &BaseParams, allocation: &[u8]) -> (r: Result<
    (QuantizedAmplitudes, VoiceDecisions, usize),
    VocoderError,
>)
    requires
        params.band_count < 20,
        1 <= params.harmonic_count <= 56,
        allocation@.len() >= params.harmonic_count - 1,
        forall|i: int| 0 <= i < params.harmonic_count - 1 ==> #[trigger] allocation@[i] <= 32,
    ensures
        ({
            let k = params.band_count as nat;
            let parts = separator_word(chunks@[4], chunks@[5]) as nat;
            let voiced = (parts / pow2((22 - k) as nat)) as u32;
            let index_part = ((parts / pow2((20 - k) as nat)) % 4) as u32;
            let scanned = (parts % pow2((20 - k) as nat)) as u32;
            let bits = scan_bits(chunks@, (scanned, (20 - k) as u8), 7);
            let count = (params.harmonic_count - 1) as nat;
            let total = allocated_bits(allocation@, count);
            &&& (total > bits.len()) == (r == Err::<(QuantizedAmplitudes, VoiceDecisions, usize), VocoderError>(
                VocoderError::ScanExhausted { harmonic_count: params.harmonic_count },
            ))
            &&& (total < bits.len()) == (r == Err::<(QuantizedAmplitudes, VoiceDecisions, usize), VocoderError>(
                VocoderError::ScanNotExhausted { harmonic_count: params.harmonic_count },
            ))
            &&& (total == bits.len()) == (r is Ok)
            &&& r is Ok ==> {
                let (amplitudes, decisions, gain) = r->Ok_0;
                &&& amplitudes.wf()
                &&& amplitudes.count() == count
                &&& forall|i: nat| i < count ==> #[trigger] amplitudes.amplitude(i) == amplitude_value(
                    allocation@,
                    count,
                    bits,
                    i,
                )
                &&& decisions.params() == *params
                &&& decisions.bitmap() == harmonics_bitmap(voiced, k, params.harmonic_count as nat)
                &&& consistent_params(*params) ==> decisions.wf()
                &&& gain == gain_index_of(chunks@[0], index_part, chunks@[7])
            }
        }),
{
    let separator = ScanSeparator::new(chunks, params);
    let scan = ScanBits::new(ScanChunks::new(chunks, separator.scanned, params));
    proof {
        let all = scan.all_bits();
        assert(scan.position() == 0);
        assert(all.subrange(0, all.len() as int) =~= all);
    }
    let amplitudes = match QuantizedAmplitudes::new(scan, params, allocation) {
        Ok(amplitudes) => amplitudes,
        Err(e) => {
            return Err(e);
        },
    };
    proof {
        assert(separator.gain_index_part < 4);
    }
    Ok((amplitudes, VoiceDecisions::new(separator.voiced, params), gain_index(chunks, separator.gain_index_part)))
}

/// Decoded bootstrap value b_0 from the frame header.
///
/// Determines whether the frame contains normal voice data (with an encoded
/// pitch period), is a silence frame, or has an invalid period value.
#[derive(Debug, Copy, Clone, PartialEq, Eq, Structural)]
pub enum Bootstrap {
    /// Frame contains voiced/unvoiced data derived from the enclosed pitch period b_0.
    Period(u8),
    /// Frame is silence.
    Silence,
    /// Invalid b_0 value was detected.
    Invalid,
}

/// The meaning of pitch period value `p`.
pub open spec fn bootstrap_of(p: u8) -> Bootstrap {
    if p <= 207 {
        Bootstrap::Period(p)
    } else if 216 <= p <= 219 {
        Bootstrap::Silence
    } else {
        Bootstrap::Invalid
    }
}

impl Bootstrap {
    /// Parse a `Bootstrap` value from the given chunks.
    ///
    /// Period values 0..=207 are valid voice frames, 216..=219 indicate
    /// silence, and all other values are invalid per TIA-102.BABA [p46].
    pub fn new(chunks: &[u32; 8]) -> (r: Self)
        ensures
            r == bootstrap_of(period_of(chunks@[0], chunks@[7])),
    {
        let p = period(chunks);
        if p <= 207 {
            Self::Period(p)
        } else if 216 <= p && p <= 219 {
            Self::Silence
        } else {
            Self::Invalid
        }
    }

    /// The period value of a `Period` variant.
    pub fn unwrap_period(&self) -> (r: u8)
        requires
            *self is Period,
        ensures
            r == self->Period_0,
    {
        match *self {
            Self::Period(p) => p,
            _ => 0,
        }
    }
}

/// Whether bit `p` of `v` is set.
pub open spec fn bit_set(v: nat, p: nat) -> bool {
    (v / pow2(p)) % 2 == 1
}

/// The number of set bits of `v`.
pub open spec fn popcount(v: nat) -> nat
    decreases v,
{
    if v == 0 {
        0
    } else {
        popcount(v / 2) + v % 2
    }
}

/// Whether band `i` is voiced in the band-level bitmap `b1` (bit `i`).
pub open spec fn band_voiced(b1: u32, i: nat) -> bool {
    bit_set(b1 as nat, i)
}

/// The bands `k - 1` down to `j` of `b1`, each spread to 3 equal bits,
/// band `k - 1` most significant.
pub open spec fn band_spread(b1: u32, j: nat, k: nat) -> nat
    decreases k - j,
{
    if j >= k {
        0
    } else {
        band_spread(b1, j + 1, k) * 8 + if band_voiced(b1, j) {
            7nat
        } else {
            0nat
        }
    }
}

/// The per-harmonic bitmap of `k` bands for `l` harmonics: every band
/// spread to 3 bits, with the bits of the last band beyond harmonic `l`
/// dropped.
pub open spec fn harmonics_bitmap(b1: u32, k: nat, l: nat) -> nat {
    if l % 3 == 0 {
        band_spread(b1, 0, k)
    } else {
        band_spread(b1, 0, k) / pow2((3 - l % 3) as nat)
    }
}

/// A spread of the bands below `k` fits in 3 bits per band.
proof fn lemma_spread_bound(b1: u32, j: nat, k: nat)
    requires
        j <= k,
    ensures
        band_spread(b1, j, k) < pow2(3 * (k - j) as nat),
    decreases k - j,
{
    if j < k {
        lemma_spread_bound(b1, j + 1, k);
        lemma_pow2_adds(3 * (k - j - 1) as nat, 3);
        lemma2_to64();
        assert(3 * (k - j - 1) + 3 == 3 * (k - j));
    } else {
        lemma2_to64();
    }
}

/// `x >> s` of a `u32` read as its bit `s`.
proof fn lemma_u32_bit(x: u32, s: u32)
    requires
        s < 32,
    ensures
        ((x >> s) & 1u32 == 1u32) == bit_set(x as nat, s as nat),
{
    vstd::bits::lemma_u32_shr_is_div(x, s);
    vstd::bits::lemma_u32_low_bits_mask_is_mod(x >> s, 1);
    vstd::bits::lemma_low_bits_mask_values();
    lemma2_to64();
}

/// `x >> s` of a `u64` read as its bit `s`.
proof fn lemma_u64_bit(x: u64, s: u64)
    requires
        s < 64,
    ensures
        (x >> s) & 1u64 == (x as nat / pow2(s as nat)) % 2,
        ((x >> s) & 1u64 == 1u64) == bit_set(x as nat, s as nat),
{
    vstd::bits::lemma_u64_shr_is_div(x, s);
    vstd::bits::lemma_u64_low_bits_mask_is_mod(x >> s, 1);
    vstd::bits::lemma_low_bits_mask_values();
    lemma2_to64();
}

/// Setting bit `s` of a word: the bits it leaves, the bit it sets, and
/// the bound it keeps.
proof fn lemma_set_bit(v: u64, s: u64, t: u64, n: u64)
    by (bit_vector)
    requires
        s < 64,
        t < 64,
    ensures
        ((v | (1u64 << s)) >> t) & 1u64 == (if t == s {
            1u64
        } else {
            (v >> t) & 1u64
        }),
        (v & (1u64 << s) != 0u64) == ((v >> s) & 1u64 == 1u64),
        (n < 64 && s < n && v < (1u64 << n)) ==> (v | (1u64 << s)) < (1u64 << n),
{
}

/// A bitmap below `2^n` has at most `n` bits set.
pub proof fn lemma_popcount_bound(v: nat, n: nat)
    requires
        v < pow2(n),
    ensures
        popcount(v) <= n,
    decreases n,
{
    if n > 0 && v > 0 {
        vstd::arithmetic::power2::lemma_pow2_unfold(n);
        lemma_popcount_bound(v / 2, (n - 1) as nat);
    } else if v > 0 {
        vstd::arithmetic::power2::lemma2_to64();
    }
}

/// Bits at or above `p` of a value below `2^p` are clear.
proof fn lemma_bit_above(v: nat, p: nat)
    requires
        v < pow2(p),
    ensures
        !bit_set(v, p),
{
    lemma_pow2_pos(p);
    vstd::arithmetic::div_mod::lemma_basic_div(v as int, pow2(p) as int);
}

/// The number of set bits of a `u64`, as `u64::count_ones` counts them.
fn count_ones(v: u64) -> (r: u32)
    ensures
        r == popcount(v as nat),
{
    let mut x = v;
    let mut count: u32 = 0;
    proof {
        lemma2_to64();
        lemma_popcount_bound(v as nat, 64);
    }
    while x > 0
        invariant
            count + popcount(x as nat) == popcount(v as nat),
            popcount(v as nat) <= 64,
        decreases x,
    {
        count = count + (x % 2) as u32;
        x = x / 2;
    }
    count
}

/// Expand band-level voiced/unvoiced bitmap b_1 into a per-harmonic bitmap.
///
/// Each band contains 3 harmonics (except possibly the last, which may
/// contain fewer when `harmonic_count % 3 != 0`). The resulting bitmap
/// has the LSB represent harmonic L, ascending through more significant
/// bits to harmonic 1.
fn generate_harmonics_bitmap(voiced: u32, params: &BaseParams) -> (r: u64)
    requires
        params.band_count <= 21,
    ensures
        r == harmonics_bitmap(voiced, params.band_count as nat, params.harmonic_count as nat),
{
    let k = params.band_count;
    let mut bits: u64 = 0;
    let mut i = k;
    proof {
        lemma2_to64();
        vstd::arithmetic::power2::lemma2_to64_rest();
    }
    // Shift in 3 bits per band, from band K - 1 down to band 0.
    while i > 0
        invariant
            i <= k <= 21,
            bits == band_spread(voiced, i as nat, k as nat),
            bits < pow2(3 * (k - i) as nat),
            pow2(63) < 0x1_0000_0000_0000_0000,
        decreases i,
    {
        i = i - 1;
        proof {
            lemma_u32_bit(voiced, i);
            lemma_pow2_adds(3 * (k - i - 1) as nat, 3);
            lemma2_to64();
            assert(3 * (k - i - 1) + 3 == 3 * (k - i));
            if 3 * (k - i) < 63 {
                lemma_pow2_strictly_increases(3 * (k - i) as nat, 63);
            }
        }
        let band: u64 = if voiced >> i & 1 == 1 {
            0b111
        } else {
            0
        };
        bits = bits * 8 + band;
    }

    // Check if the last band contains fewer than 3 harmonics.
    let remainder = params.harmonic_count % 3;

    if remainder == 0 {
        bits
    } else {
        // Strip off extra harmonics from the last band.
        proof {
            vstd::bits::lemma_u64_shr_is_div(bits, (3 - remainder) as u64);
        }
        bits >> (3 - remainder) as u64
    }
}

/// Tracks per-harmonic voiced/unvoiced decisions.
///
/// Decisions are initialized from the received band-level voiced/unvoiced
/// vector b_1, expanding each band decision to cover its 3 harmonics
/// (the last band may cover fewer). Individual harmonics can later be
/// forced voiced by adaptive smoothing per [p49].
#[derive(Debug, Copy, Clone)]
pub struct VoiceDecisions {
    /// Parameters for the current frame.
    params: BaseParams,
    /// Per-harmonic voiced/unvoiced bitmap.
    ///
    /// Bit `(L - l)` is set if harmonic `l` (1-based) is voiced.
    voiced: u64,
}

/// Whether the band count is the one the harmonic count calls for.
pub open spec fn consistent_params(params: BaseParams) -> bool {
    params.band_count == band_count_of(params.harmonic_count as nat)
}

impl VoiceDecisions {
    /// Parameters of the frame.
    pub closed spec fn params(&self) -> BaseParams {
        self.params
    }

    /// Number of harmonics L.
    pub open spec fn harmonic_count(&self) -> nat {
        self.params().harmonic_count as nat
    }

    /// The per-harmonic bitmap: bit `L - l` stands for harmonic `l`.
    pub closed spec fn bitmap(&self) -> nat {
        self.voiced as nat
    }

    /// Whether harmonic `l` is voiced.
    pub open spec fn voiced_harmonic(&self, l: nat) -> bool {
        l <= self.harmonic_count() && bit_set(self.bitmap(), (self.harmonic_count() - l) as nat)
    }

    /// No bit stands for a harmonic beyond the first L.
    pub open spec fn wf(&self) -> bool {
        self.bitmap() < pow2(self.harmonic_count())
    }

    /// Of a well-formed decision set, at most L harmonics are voiced.
    pub proof fn lemma_wf(&self)
        requires
            self.wf(),
        ensures
            popcount(self.bitmap()) <= self.harmonic_count(),
    {
        lemma_popcount_bound(self.bitmap(), self.harmonic_count());
    }

    /// Create new `VoiceDecisions` from the band-level voiced/unvoiced bitmap
    /// b_1 and frame parameters.
    pub fn new(voiced: u32, params: &BaseParams) -> (r: Self)
        requires
            params.band_count <= 21,
        ensures
            r.params() == *params,
            r.bitmap() == harmonics_bitmap(voiced, params.band_count as nat, params.harmonic_count as nat),
            consistent_params(*params) ==> r.wf(),
    {
        let bitmap = generate_harmonics_bitmap(voiced, params);
        proof {
            if consistent_params(*params) {
                lemma_new_wf(voiced, params.band_count as nat, params.harmonic_count as nat);
            }
        }
        Self { params: *params, voiced: bitmap }
    }

    /// The per-harmonic bitmap: bit `L - l` is set if harmonic `l` is voiced.
    pub fn voiced(&self) -> (r: u64)
        ensures
            r == self.bitmap(),
    {
        self.voiced
    }

    /// Force the given harmonic (1-based) to be voiced.
    pub fn force_voiced(&mut self, harmonic: usize)
        requires
            harmonic <= old(self).harmonic_count(),
            old(self).harmonic_count() - harmonic < 64,
        ensures
            final(self).params() == old(self).params(),
            forall|l: nat| #[trigger] final(self).voiced_harmonic(l) == (l == harmonic || old(self).voiced_harmonic(l)),
            old(self).wf() && harmonic >= 1 ==> final(self).wf(),
    {
        let m = self.mask(harmonic);
        let ghost v = self.voiced;
        let ghost s = (self.params.harmonic_count - harmonic) as u64;
        self.voiced = self.voiced | m;
        proof {
            let big_l = self.harmonic_count();
            assert forall|l: nat| #[trigger] self.voiced_harmonic(l) == (l == harmonic || old(self).voiced_harmonic(l)) by {
                if l <= big_l {
                    let p = (big_l - l) as nat;
                    if p < 64 {
                        lemma_set_bit(v, s, p as u64, 0);
                        lemma_u64_bit(v | (1u64 << s), p as u64);
                        lemma_u64_bit(v, p as u64);
                    } else {
                        lemma2_to64();
                        if p > 64 {
                            lemma_pow2_strictly_increases(64, p);
                        }
                        lemma_bit_above(v as nat, p);
                        lemma_bit_above((v | (1u64 << s)) as nat, p);
                    }
                }
            }
            if old(self).wf() && harmonic >= 1 && big_l < 64 {
                lemma_set_bit(v, s, 0, big_l as u64);
                vstd::bits::lemma_u64_pow2_no_overflow(big_l);
                vstd::bits::lemma_u64_shl_is_mul(1, big_l as u64);
            }
            if big_l >= 64 {
                lemma2_to64();
                if big_l > 64 {
                    lemma_pow2_strictly_increases(64, big_l);
                }
            }
        }
    }

    /// Compute the number of unvoiced harmonics.
    pub fn unvoiced_count(&self) -> (r: u32)
        requires
            popcount(self.bitmap()) <= self.harmonic_count(),
        ensures
            r == self.harmonic_count() - popcount(self.bitmap()),
    {
        self.params.harmonic_count - count_ones(self.voiced)
    }

    /// Check if the given harmonic (1-based) is voiced.
    pub fn is_voiced(&self, harmonic: usize) -> (r: bool)
        requires
            harmonic <= u32::MAX,
            harmonic <= self.harmonic_count() ==> self.harmonic_count() - harmonic < 64,
        ensures
            r == self.voiced_harmonic(harmonic as nat),
    {
        if harmonic as u32 > self.params.harmonic_count {
            false
        } else {
            let m = self.mask(harmonic);
            proof {
                let s = (self.params.harmonic_count - harmonic) as u64;
                lemma_set_bit(self.voiced, s, 0, 0);
                lemma_u64_bit(self.voiced, s);
            }
            self.voiced & m != 0
        }
    }

    /// Create a 1-bit mask for the bit position of the given harmonic (1-based).
    fn mask(&self, harmonic: usize) -> (r: u64)
        requires
            harmonic <= self.harmonic_count(),
            self.harmonic_count() - harmonic < 64,
        ensures
            r == 1u64 << (self.harmonic_count() - harmonic) as u64,
    {
        1 << (self.params.harmonic_count as usize - harmonic) as u64
    }
}

impl Default for VoiceDecisions {
    /// Create `VoiceDecisions` in default state: all harmonics unvoiced per [p64].
    fn default() -> (r: Self)
        ensures
            r.harmonic_count() == 0,
            r.bitmap() == 0,
            r.wf(),
    {
        let params = BaseParams::default();
        let r = Self::new(0, &params);
        proof {
            vstd::arithmetic::power2::lemma2_to64();
        }
        r
    }
}

/// A bitmap made with the band count that the harmonic count calls for
/// has no bit beyond the first L.
proof fn lemma_new_wf(b1: u32, k: nat, l: nat)
    requires
        k == band_count_of(l),
    ensures
        harmonics_bitmap(b1, k, l) < pow2(l),
{
    lemma_spread_bound(b1, 0, k);
    let spread = band_spread(b1, 0, k);
    let s: nat = if l % 3 == 0 { 0 } else { (3 - l % 3) as nat };
    // The spread covers 3k bits; the shift leaves 3k - s of them.
    let kept = (3 * k - s) as nat;
    lemma_pow2_adds(kept, s);
    lemma_pow2_pos(s);
    lemma2_to64();
    assert(harmonics_bitmap(b1, k, l) < pow2(kept)) by {
        if l % 3 != 0 {
            vstd::arithmetic::mul::lemma_mul_is_commutative(pow2(kept) as int, pow2(s) as int);
            vstd::arithmetic::div_mod::lemma_multiply_divide_lt(spread as int, pow2(s) as int, pow2(kept) as int);
        }
    }
    if kept < l {
        lemma_pow2_strictly_increases(kept, l);
    }
}

/// Number of the first `n` amplitudes whose bit allocation exceeds `level`,
/// the bits that the scan gives to that level.
pub open spec fn level_width(alloc: Seq<u8>, n: nat, level: nat) -> nat
    decreases n,
{
    if n == 0 {
        0
    } else {
        level_width(alloc, (n - 1) as nat, level) + if alloc[n - 1] > level {
            1nat
        } else {
            0nat
        }
    }
}

/// Number of scan bits given to the levels from `level` up to `top - 1`
/// of the first `count` amplitudes.
pub open spec fn bits_from(alloc: Seq<u8>, count: nat, level: nat, top: nat) -> nat
    decreases top - level,
{
    if level >= top {
        0
    } else {
        level_width(alloc, count, level) + bits_from(alloc, count, level + 1, top)
    }
}

/// The largest bit allocation among the first `n` amplitudes.
pub open spec fn max_allocation(alloc: Seq<u8>, n: nat) -> nat
    decreases n,
{
    if n == 0 {
        0
    } else {
        let m = max_allocation(alloc, (n - 1) as nat);
        if alloc[n - 1] > m {
            alloc[n - 1] as nat
        } else {
            m
        }
    }
}

/// The total number of bits allocated to the first `count` amplitudes.
pub open spec fn allocated_bits(alloc: Seq<u8>, count: nat) -> nat {
    bits_from(alloc, count, 0, max_allocation(alloc, count))
}

/// Position in the scan of the bit of amplitude `i` at bit level `level`:
/// levels are read from the highest down, and within a level the
/// amplitudes that have a bit there in order.
pub open spec fn bit_index(alloc: Seq<u8>, count: nat, level: nat, i: nat) -> nat {
    bits_from(alloc, count, level + 1, max_allocation(alloc, count)) + level_width(alloc, i, level)
}

/// The value of amplitude `i` from its scan bits at levels `level` and
/// above, the highest level most significant.
pub open spec fn amplitude_from(alloc: Seq<u8>, count: nat, scan: Seq<u32>, i: nat, level: nat) -> nat
    decreases alloc[i as int] - level,
{
    if level >= alloc[i as int] {
        0
    } else {
        (amplitude_from(alloc, count, scan, i, level + 1) * 2 + scan[bit_index(alloc, count, level, i) as int]) as nat
    }
}

/// The value of amplitude `i` rebuilt from the scan.
pub open spec fn amplitude_value(alloc: Seq<u8>, count: nat, scan: Seq<u32>, i: nat) -> nat {
    amplitude_from(alloc, count, scan, i, 0)
}

/// Widths only grow with the number of amplitudes counted.
proof fn lemma_level_width_mono(alloc: Seq<u8>, m: nat, n: nat, level: nat)
    requires
        m <= n,
    ensures
        level_width(alloc, m, level) <= level_width(alloc, n, level),
    decreases n,
{
    if m < n {
        lemma_level_width_mono(alloc, m, (n - 1) as nat, level);
    }
}

/// The bits of the levels from `a` up hold those from `b` up, for `a <= b`.
proof fn lemma_bits_from_mono(alloc: Seq<u8>, count: nat, a: nat, b: nat, top: nat)
    requires
        a <= b,
    ensures
        bits_from(alloc, count, a, top) >= bits_from(alloc, count, b, top),
    decreases b - a,
{
    if a < b && a < top {
        lemma_bits_from_mono(alloc, count, a + 1, b, top);
    }
}

/// No amplitude has a bit at or above the largest allocation.
proof fn lemma_max_allocation(alloc: Seq<u8>, n: nat, i: nat)
    requires
        i < n <= alloc.len(),
    ensures
        alloc[i as int] <= max_allocation(alloc, n),
        max_allocation(alloc, n) <= 255,
    decreases n,
{
    if i < n - 1 {
        lemma_max_allocation(alloc, (n - 1) as nat, i);
    }
    lemma_max_allocation_bound(alloc, n);
}

proof fn lemma_max_allocation_bound(alloc: Seq<u8>, n: nat)
    ensures
        max_allocation(alloc, n) <= 255,
    decreases n,
{
    if n > 0 {
        lemma_max_allocation_bound(alloc, (n - 1) as nat);
    }
}

/// Reconstructed quantized amplitudes b_3 through b_{L+1}.
///
/// Stores up to `MAX_QUANTIZED_AMPLITUDES` (55) values extracted from the
/// scanning procedure. The number of active amplitudes is `L - 1` where
/// L is the harmonic count.
#[derive(Debug, Copy, Clone)]
pub struct QuantizedAmplitudes {
    /// Amplitude values indexed by `m - 3`.
    values: [u32; MAX_QUANTIZED_AMPLITUDES],
    /// Number of active amplitudes (harmonic_count - 1).
    count: usize,
}

impl QuantizedAmplitudes {
    /// Number of active amplitudes.
    pub closed spec fn count(&self) -> nat {
        self.count as nat
    }

    /// The amplitude b_{i+3}.
    pub closed spec fn amplitude(&self, i: nat) -> u32 {
        self.values@[i as int]
    }

    /// At most `MAX_QUANTIZED_AMPLITUDES` amplitudes are active.
    pub closed spec fn wf(&self) -> bool {
        self.count <= MAX_QUANTIZED_AMPLITUDES
    }

    /// Reconstruct quantized amplitudes from the given bit scan.
    ///
    /// Iterates through bit levels MSB-to-LSB per TIA-102.BABA [p39],
    /// distributing scanned bits across amplitudes according to the
    /// bit allocation `allocation`, which gives the number of bits of
    /// each amplitude b_3, b_4, ... for the frame's harmonic count.
    ///
    /// Returns an error if the scan produces too few or too many bits
    /// for the given harmonic count (indicates a logic/table bug).
    pub fn new(scan: ScanBits, params: &BaseParams, allocation: &[u8]) -> (r: Result<Self, VocoderError>)
        requires
            scan.wf(),
            1 <= params.harmonic_count <= 56,
            allocation@.len() >= params.harmonic_count - 1,
            forall|i: int| 0 <= i < params.harmonic_count - 1 ==> #[trigger] allocation@[i] <= 32,
        ensures
            ({
                let bits = scan.all_bits().subrange(scan.position() as int, scan.all_bits().len() as int);
                let count = (params.harmonic_count - 1) as nat;
                let total = allocated_bits(allocation@, count);
                &&& (total > bits.len()) == (r == Err::<Self, VocoderError>(
                    VocoderError::ScanExhausted { harmonic_count: params.harmonic_count },
                ))
                &&& (total < bits.len()) == (r == Err::<Self, VocoderError>(
                    VocoderError::ScanNotExhausted { harmonic_count: params.harmonic_count },
                ))
                &&& (total == bits.len()) == (r is Ok)
                &&& r is Ok ==> {
                    let q = r->Ok_0;
                    &&& q.wf()
                    &&& q.count() == count
                    &&& forall|i: nat| i < count ==> #[trigger] q.amplitude(i) == amplitude_value(
                        allocation@,
                        count,
                        bits,
                        i,
                    )
                }
            }),
    {
        let ghost all = scan.all_bits();
        let ghost start = scan.position();
        let ghost bits = all.subrange(start as int, all.len() as int);
        let count = (params.harmonic_count - 1) as usize;
        let ghost alloc = allocation@;
        let mut values = [0u32; MAX_QUANTIZED_AMPLITUDES];
        let mut it = scan;
        proof {
            it.lemma_binary();
            lemma2_to64();
            it.lemma_position();
        }

        // The highest bit level of any amplitude.
        let mut max: u8 = 0;
        let mut k: usize = 0;
        while k < count
            invariant
                k <= count <= 55,
                count <= allocation@.len(),
                max == max_allocation(alloc, k as nat),
                alloc == allocation@,
            decreases count - k,
        {
            if allocation[k] > max {
                max = allocation[k];
            }
            k = k + 1;
        }
        let ghost top = max as nat;
        proof {
            assert forall|i: nat| i < count implies #[trigger] values@[i as int] == amplitude_from(
                alloc,
                count as nat,
                bits,
                i,
                top,
            ) && values@[i as int] < pow2(
                if alloc[i as int] > top { (alloc[i as int] - top) as nat } else { 0 },
            ) by {
                lemma_max_allocation(alloc, count as nat, i);
            }
        }

        // Iterate through bit levels, MSB to LSB.
        let mut level = max;
        while level > 0
            invariant
                level <= max,
                top == max as nat,
                top == max_allocation(alloc, count as nat),
                count == params.harmonic_count - 1,
                count <= 55,
                count <= alloc.len(),
                alloc == allocation@,
                forall|i: int| 0 <= i < count ==> #[trigger] alloc[i] <= 32,
                it.wf(),
                it.all_bits() == all,
                all == scan.all_bits(),
                start == scan.position(),
                start <= it.position() <= all.len(),
                bits == all.subrange(start as int, all.len() as int),
                forall|i: int| 0 <= i < all.len() ==> #[trigger] all[i] <= 1,
                it.position() == start + bits_from(alloc, count as nat, level as nat, top),
                forall|i: nat| i < count ==> #[trigger] values@[i as int] == amplitude_from(
                    alloc,
                    count as nat,
                    bits,
                    i,
                    level as nat,
                ),
                forall|i: nat| i < count ==> #[trigger] values@[i as int] < pow2(
                    if alloc[i as int] > level { (alloc[i as int] - level) as nat } else { 0 },
                ),
                forall|i: int| count <= i < 55 ==> #[trigger] values@[i] == 0,
            decreases level,
        {
            level = level - 1;
            // Iterate over all b_i.
            let mut i: usize = 0;
            while i < count
                invariant
                    level < max,
                    top == max as nat,
                    top == max_allocation(alloc, count as nat),
                    count == params.harmonic_count - 1,
                    count <= 55,
                    count <= alloc.len(),
                    alloc == allocation@,
                    i <= count,
                    forall|i: int| 0 <= i < count ==> #[trigger] alloc[i] <= 32,
                    it.wf(),
                    it.all_bits() == all,
                    all == scan.all_bits(),
                    start == scan.position(),
                    start <= it.position() <= all.len(),
                    bits == all.subrange(start as int, all.len() as int),
                    forall|i: int| 0 <= i < all.len() ==> #[trigger] all[i] <= 1,
                    it.position() == start + bits_from(alloc, count as nat, (level + 1) as nat, top)
                        + level_width(alloc, i as nat, level as nat),
                    forall|j: nat| j < i ==> #[trigger] values@[j as int] == amplitude_from(
                        alloc,
                        count as nat,
                        bits,
                        j,
                        level as nat,
                    ),
                    forall|j: nat| i <= j < count ==> #[trigger] values@[j as int] == amplitude_from(
                        alloc,
                        count as nat,
                        bits,
                        j,
                        (level + 1) as nat,
                    ),
                    forall|j: nat| j < i ==> #[trigger] values@[j as int] < pow2(
                        if alloc[j as int] > level { (alloc[j as int] - level) as nat } else { 0 },
                    ),
                    forall|j: nat| i <= j < count ==> #[trigger] values@[j as int] < pow2(
                        if alloc[j as int] > level + 1 { (alloc[j as int] - level - 1) as nat } else { 0 },
                    ),
                    forall|j: int| count <= j < 55 ==> #[trigger] values@[j] == 0,
                decreases count - i,
            {
                // Skip this b_i if there are no bits allocated at this level.
                if allocation[i] > level {
                    // Shift the next scanned bit onto the LSB.
                    let ghost pos = it.position();
                    match it.next() {
                        Some(bit) => {
                            proof {
                                let w = (alloc[i as int] - level - 1) as nat;
                                let old_value = values@[i as int];
                                assert(old_value < pow2(w));
                                assert(all[pos as int] <= 1);
                                lemma2_to64();
                                lemma_pow2_adds(w, 1);
                                lemma_u32_pow2_bound(w);
                                assert(bits[(pos - start) as int] == bit);
                                assert(bit_index(alloc, count as nat, level as nat, i as nat) == pos - start);
                            }
                            values[i] = values[i] * 2 + bit;
                        },
                        None => {
                            proof {
                                lemma_exhausted(alloc, count as nat, level as nat, i as nat, top);
                                assert(pos == all.len());
                                assert(bits.len() == all.len() - start);
                                assert(allocated_bits(allocation@, count as nat) > bits.len());
                                assert((params.harmonic_count - 1) as nat == count);
                            }
                            return Err(VocoderError::ScanExhausted { harmonic_count: params.harmonic_count });
                        },
                    }
                }
                i = i + 1;
            }
            assert(bits_from(alloc, count as nat, level as nat, top) == level_width(alloc, count as nat, level as nat)
                + bits_from(alloc, count as nat, (level + 1) as nat, top));
        }

        if it.next().is_some() {
            return Err(VocoderError::ScanNotExhausted { harmonic_count: params.harmonic_count });
        }

        let r = Self { values, count };
        assert(forall|i: nat| i < count ==> #[trigger] r.amplitude(i) == amplitude_value(alloc, count as nat, bits, i));
        Ok(r)
    }

    /// Retrieve the quantized amplitude b_m where 3 <= m <= L+1.
    pub fn get(&self, m: usize) -> (r: u32)
        requires
            self.wf(),
            3 <= m,
            m - 3 < self.count(),
        ensures
            r == self.amplitude((m - 3) as nat),
    {
        let index = m - 3;
        self.values[index]
    }
}

/// A value below `2^w` for `w < 32` doubles with a bit added within `u32`.
proof fn lemma_u32_pow2_bound(w: nat)
    requires
        w < 32,
    ensures
        pow2(w + 1) <= 0x1_0000_0000,
{
    lemma2_to64();
    if w + 1 < 32 {
        lemma_pow2_strictly_increases(w + 1, 32);
    }
}

/// Running out of scan bits at amplitude `i` of `level` means the
/// allocation holds more bits than were scanned.
proof fn lemma_exhausted(alloc: Seq<u8>, count: nat, level: nat, i: nat, top: nat)
    requires
        i < count,
        level < top,
        alloc[i as int] > level,
        top == max_allocation(alloc, count),
    ensures
        allocated_bits(alloc, count) >= bits_from(alloc, count, level + 1, top) + level_width(alloc, i, level) + 1,
{
    lemma_level_width_mono(alloc, i + 1, count, level);
    lemma_bits_from_mono(alloc, count, 0, level, top);
    assert(level_width(alloc, i + 1, level) == level_width(alloc, i, level) + 1);
}

/// Bit `p` of the spread of bands `j` to `k - 1` is the decision of band
/// `j + p / 3`.
proof fn lemma_spread_bit(b1: u32, j: nat, k: nat, p: nat)
    requires
        j < k,
        p < 3 * (k - j),
    ensures
        bit_set(band_spread(b1, j, k), p) == band_voiced(b1, j + p / 3),
    decreases p,
{
    let a = band_spread(b1, j + 1, k);
    let c: nat = if band_voiced(b1, j) { 7 } else { 0 };
    let x = band_spread(b1, j, k);
    assert(x == a * 8 + c);
    lemma2_to64();
    if p >= 3 {
        let q = (p - 3) as nat;
        lemma_pow2_adds(3, q);
        lemma_pow2_pos(q);
        vstd::arithmetic::div_mod::lemma_div_denominator(x as int, 8, pow2(q) as int);
        assert(x / 8 == a);
        lemma_spread_bit(b1, j + 1, k, q);
        assert(j + 1 + q / 3 == j + p / 3);
    } else if p == 0 {
        assert(x / pow2(0) == x);
    } else if p == 1 {
        assert(x / pow2(1) == a * 4 + c / 2);
    } else {
        assert(x / pow2(2) == a * 2 + c / 4);
    }
}

/// Each band's decision covers its 3 harmonics: with L of at most 36
/// harmonics and the K bands that L calls for, harmonic `l` (1 to L) of
/// the per-harmonic bitmap is voiced exactly when band `(l - 1) / 3`,
/// counted from the most significant of the K bits of b_1, is voiced.
pub proof fn lemma_band_expansion(b1: u32, k: nat, harmonics: nat, l: nat)
    requires
        k == band_count_of(harmonics),
        harmonics <= 36,
        1 <= l <= harmonics,
    ensures
        bit_set(harmonics_bitmap(b1, k, harmonics), (harmonics - l) as nat) == band_voiced(
            b1,
            (k - 1 - (l - 1) / 3) as nat,
        ),
{
    let s: nat = if harmonics % 3 == 0 { 0 } else { (3 - harmonics % 3) as nat };
    let p = (harmonics - l) as nat;
    let spread = band_spread(b1, 0, k);
    assert(3 * k == harmonics + s);
    lemma_pow2_adds(s, p);
    lemma_pow2_pos(s);
    lemma_pow2_pos(p);
    lemma2_to64();
    vstd::arithmetic::div_mod::lemma_div_denominator(spread as int, pow2(s) as int, pow2(p) as int);
    assert(harmonics_bitmap(b1, k, harmonics) == spread / pow2(s)) by {
        if s == 0 {
            vstd::arithmetic::div_mod::lemma_div_basics(spread as int);
        }
    }
    lemma_spread_bit(b1, 0, k, p + s);
    assert((p + s) / 3 == k - 1 - (l - 1) / 3);
}

} // verus!

//! LDU frame group receiver for P25 voice transmissions.
//!
//! Each frame group (LDU1 or LDU2) contains:
//! - 9 IMBE voice frames (72 dibits each)
//! - 6 "extra" pieces (20 dibits each, carrying LC or CC data)
//! - 1 low-speed data fragment (16 dibits = 2 cyclic code words)
//!
//! The structure within a frame group:
//! ```text
//! [frame 1] [frame 2] [extra 1] [frame 3] [extra 2] [frame 4] [extra 3]
//! [frame 5] [extra 4] [frame 6] [extra 5] [frame 7] [extra 6]
//! [frame 8] [data frag] [frame 9]
//! ```
//!
//! Extra pieces are Hamming(10,6,3)-decoded into hexbits, then the 24
//! hexbits are Reed-Solomon decoded into either Link Control (9 bytes,
//! RS short) or Crypto Control (12 bytes, RS medium).

use vstd::prelude::*;
use crate::p25::coding::{cyclic, hamming};
use crate::p25::coding::reed_solomon::{self, hexbit_values, rs_decode_word};
use crate::p25::error::P25Error;
use crate::p25::types::{Dibit, Hexbit};
use crate::p25::voice::control::LinkControlFields;
use crate::p25::voice::crypto::CryptoControlFields;
use crate::p25::voice::frame::{frame_decoded, VoiceFrame};

verus! {

broadcast use crate::p25::types::lemma_dibit_bound, crate::p25::types::lemma_hexbit_bound;

// ---------------------------------------------------------------------------
// Packing hexbits into bytes
// ---------------------------------------------------------------------------

/// Bit `k` of the bit string formed by 6-bit symbols, counting from the
/// most significant bit of the first symbol.
pub open spec fn hexbit_bit(h: Seq<u8>, k: nat) -> u8 {
    (h[(k / 6) as int] >> ((5 - k % 6) as u8)) & 1u8
}

/// The first `j` bits of byte `i` of the bit string, as a number.
pub open spec fn byte_prefix(h: Seq<u8>, i: nat, j: nat) -> nat
    decreases j,
{
    if j == 0 {
        0
    } else {
        byte_prefix(h, i, (j - 1) as nat) * 2 + hexbit_bit(h, (8 * i + j - 1) as nat) as nat
    }
}

/// Byte `i` of the bit string formed by the symbols, most significant bit
/// first.
pub open spec fn packed_byte(h: Seq<u8>, i: nat) -> nat {
    byte_prefix(h, i, 8)
}

/// The first `n` bytes of the bit string formed by the symbols.
pub open spec fn packed_bytes(h: Seq<u8>, n: nat) -> Seq<u8> {
    Seq::new(n, |i: int| packed_byte(h, i as nat) as u8)
}

/// The first `n` packed bytes read only the first `m` symbols, when they
/// hold the `8 n` bits.
pub proof fn lemma_packed_prefix(h1: Seq<u8>, h2: Seq<u8>, n: nat, m: nat)
    requires
        8 * n <= 6 * m,
        m <= h1.len(),
        m <= h2.len(),
        h1.subrange(0, m as int) == h2.subrange(0, m as int),
    ensures
        packed_bytes(h1, n) == packed_bytes(h2, n),
{
    assert forall|i: int| 0 <= i < n implies #[trigger] packed_bytes(h1, n)[i] == packed_bytes(h2, n)[i] by {
        lemma_byte_prefix_same(h1, h2, i as nat, 8, m);
    }
    assert(packed_bytes(h1, n) =~= packed_bytes(h2, n));
}

proof fn lemma_byte_prefix_same(h1: Seq<u8>, h2: Seq<u8>, i: nat, j: nat, m: nat)
    requires
        8 * i + j <= 6 * m,
        j <= 8,
        m <= h1.len(),
        m <= h2.len(),
        h1.subrange(0, m as int) == h2.subrange(0, m as int),
    ensures
        byte_prefix(h1, i, j) == byte_prefix(h2, i, j),
    decreases j,
{
    if j > 0 {
        lemma_byte_prefix_same(h1, h2, i, (j - 1) as nat, m);
        let k = (8 * i + j - 1) as nat;
        assert(k / 6 < m);
        assert(h1[(k / 6) as int] == h1.subrange(0, m as int)[(k / 6) as int]);
        assert(h2[(k / 6) as int] == h2.subrange(0, m as int)[(k / 6) as int]);
    }
}

/// Bits of the packed string inside a group of four symbols are the bits
/// of those symbols.
proof fn lemma_group_bits(h: Seq<u8>, j: nat, t: nat)
    requires
        t < 24,
        4 * j + 4 <= h.len(),
    ensures
        hexbit_bit(h, 24 * j + t) == hexbit_bit(h.subrange((4 * j) as int, (4 * j + 4) as int), t),
{
    vstd::arithmetic::div_mod::lemma_fundamental_div_mod_converse(
        (24 * j + t) as int,
        6,
        (4 * j + t / 6) as int,
        (t % 6) as int,
    );
}

proof fn lemma_group_prefix(h: Seq<u8>, j: nat, c: nat, n: nat)
    requires
        c < 3,
        n <= 8,
        4 * j + 4 <= h.len(),
    ensures
        byte_prefix(h, (3 * j + c) as nat, n) == byte_prefix(h.subrange((4 * j) as int, (4 * j + 4) as int), c, n),
    decreases n,
{
    if n > 0 {
        lemma_group_prefix(h, j, c, (n - 1) as nat);
        lemma_group_bits(h, j, (8 * c + n - 1) as nat);
        assert(8 * (3 * j + c) + n - 1 == 24 * j + (8 * c + n - 1));
    }
}

/// Every four 6-bit symbols pack into three bytes, most significant bit
/// first: the first byte is the first symbol and the top two bits of the
/// second, the next is the low four bits of the second and the top four of
/// the third, and the last is the low two bits of the third and the
/// fourth symbol.
pub proof fn lemma_packed_groups(h: Seq<u8>, j: nat)
    requires
        4 * j + 4 <= h.len(),
        forall|i: int| 4 * j <= i < 4 * j + 4 ==> #[trigger] h[i] < 64,
    ensures
        packed_byte(h, 3 * j) == h[(4 * j) as int] * 4 + h[(4 * j + 1) as int] / 16,
        packed_byte(h, (3 * j + 1) as nat) == (h[(4 * j + 1) as int] % 16) * 16 + h[(4 * j + 2) as int] / 4,
        packed_byte(h, (3 * j + 2) as nat) == (h[(4 * j + 2) as int] % 4) * 64 + h[(4 * j + 3) as int],
{
    let g = h.subrange((4 * j) as int, (4 * j + 4) as int);
    lemma_group_prefix(h, j, 0, 8);
    lemma_group_prefix(h, j, 1, 8);
    lemma_group_prefix(h, j, 2, 8);
    assert(3 * j + 0 == 3 * j);
    let a = g[0];
    let b = g[1];
    let c = g[2];
    let d = g[3];
    assert(a < 64 && b < 64 && c < 64 && d < 64);
    crate::p25::bitwise::lemma_symbol_bits(a);
    crate::p25::bitwise::lemma_symbol_bits(b);
    crate::p25::bitwise::lemma_symbol_bits(c);
    crate::p25::bitwise::lemma_symbol_bits(d);
    reveal_with_fuel(byte_prefix, 9);
}

/// The number of whole bytes that `n` symbols fill.
pub open spec fn whole_bytes(n: nat) -> nat {
    6 * n / 8
}

proof fn lemma_byte_prefix_bound(h: Seq<u8>, i: nat, j: nat)
    ensures
        byte_prefix(h, i, j) < vstd::arithmetic::power2::pow2(j),
    decreases j,
{
    vstd::arithmetic::power2::lemma2_to64();
    if j > 0 {
        lemma_byte_prefix_bound(h, i, (j - 1) as nat);
        vstd::arithmetic::power2::lemma_pow2_unfold(j);
        let k: nat = (8 * i + j - 1) as nat;
        crate::p25::bitwise::lemma_bit_u8(h[(k / 6) as int], (5 - k % 6) as u8);
        assert(hexbit_bit(h, k) < 2);
        assert(byte_prefix(h, i, j) == byte_prefix(h, i, (j - 1) as nat) * 2 + hexbit_bit(h, k) as nat);
    }
}

/// Byte `i` of the bit string, computed bit by bit.
fn pack_byte(hexbits: &[Hexbit], i: usize) -> (r: u8)
    requires
        8 * i + 8 <= 6 * hexbits@.len(),
        hexbits@.len() <= 0x1000_0000,
    ensures
        r == packed_byte(hexbit_values(hexbits@), i as nat),
{
    let ghost h = hexbit_values(hexbits@);
    let mut b: u32 = 0;
    let mut j: usize = 0;
    proof {
        vstd::arithmetic::power2::lemma2_to64();
    }
    while j < 8
        invariant
            j <= 8,
            8 * i + 8 <= 6 * hexbits@.len(),
            hexbits@.len() <= 0x1000_0000,
            h == hexbit_values(hexbits@),
            b == byte_prefix(h, i as nat, j as nat),
            b < vstd::arithmetic::power2::pow2(j as nat),
        decreases 8 - j,
    {
        let k: usize = 8 * i + j;
        assert(k / 6 < hexbits@.len()) by (nonlinear_arith)
            requires
                k < 6 * hexbits@.len(),
        ;
        let sym = hexbits[k / 6].bits();
        let shift = (5 - k % 6) as u8;
        let bit = (sym >> shift) & 1;
        proof {
            crate::p25::bitwise::lemma_bit_u8(sym, shift);
            assert(h[(k / 6) as int] == sym);
            lemma_byte_prefix_bound(h, i as nat, (j + 1) as nat);
            vstd::arithmetic::power2::lemma_pow2_strictly_increases((j + 1) as nat, 9);
            vstd::arithmetic::power2::lemma2_to64();
        }
        b = b * 2 + bit as u32;
        j += 1;
    }
    proof {
        vstd::arithmetic::power2::lemma2_to64();
    }
    b as u8
}

/// Convert a slice of hexbits (6-bit symbols) into packed bytes.
///
/// The symbols form a bit string, most significant bit first; each output
/// byte that the string fills completely is written, and bytes beyond the
/// bits available are left as they were.
pub fn hexbits_to_bytes(hexbits: &[Hexbit], bytes: &mut [u8])
    requires
        hexbits@.len() <= 0x1000_0000,
    ensures
        final(bytes)@.len() == old(bytes)@.len(),
        forall|i: int|
            0 <= i < old(bytes)@.len() ==> #[trigger] final(bytes)@[i] == if i < whole_bytes(hexbits@.len()) {
                packed_byte(hexbit_values(hexbits@), i as nat) as u8
            } else {
                old(bytes)@[i]
            },
{
    let full = hexbits.len() * 6 / 8;
    let mut i: usize = 0;
    while i < bytes.len() && i < full
        invariant
            i <= bytes@.len(),
            i <= full,
            bytes@.len() == old(bytes)@.len(),
            full == whole_bytes(hexbits@.len()),
            hexbits@.len() <= 0x1000_0000,
            forall|m: int| 0 <= m < i ==> #[trigger] bytes@[m] == packed_byte(hexbit_values(hexbits@), m as nat) as u8,
            forall|m: int| i <= m < bytes@.len() ==> #[trigger] bytes@[m] == old(bytes)@[m],
        decreases bytes@.len() - i,
    {
        assert(8 * i + 8 <= 6 * hexbits@.len()) by (nonlinear_arith)
            requires
                i < full,
                full == 6 * hexbits@.len() / 8,
        ;
        let b = pack_byte(hexbits, i);
        bytes[i] = b;
        i += 1;
    }
}

/// The first `n` bytes of the bit string formed by the symbols.
pub fn pack_bytes(hexbits: &[Hexbit], n: usize) -> (r: Vec<u8>)
    requires
        8 * n <= 6 * hexbits@.len(),
        hexbits@.len() <= 0x1000_0000,
    ensures
        r@ == packed_bytes(hexbit_values(hexbits@), n as nat),
{
    let mut out: Vec<u8> = Vec::new();
    let mut i: usize = 0;
    while i < n
        invariant
            i <= n,
            8 * n <= 6 * hexbits@.len(),
            hexbits@.len() <= 0x1000_0000,
            out@ == packed_bytes(hexbit_values(hexbits@), i as nat),
        decreases n - i,
    {
        let b = pack_byte(hexbits, i);
        out.push(b);
        i += 1;
        assert(out@ =~= packed_bytes(hexbit_values(hexbits@), i as nat));
    }
    out
}


/// Four to the power `n`: the number of values of `n` dibits.
pub open spec fn pow4(n: nat) -> nat
    decreases n,
{
    if n == 0 {
        1
    } else {
        4 * pow4((n - 1) as nat)
    }
}

// ---------------------------------------------------------------------------
// Extra packet decoder (shared between LC and CC)
// ---------------------------------------------------------------------------

/// The hexbit carried by a 10-bit extra word: its Hamming(10,6,3) decoding,
/// or zero where that fails (the Reed-Solomon stage repairs it).
pub open spec fn extra_symbol(word: u16) -> u8 {
    match hamming::shortened::spec_decode(word) {
        Some((data, _)) => data % 64,
        None => 0,
    }
}

/// The state of a decoder that collects 24 hexbits from coded words, such
/// as the extra packet decoder.
pub struct SymbolCollector {
    /// The 24 symbol slots; those from `count` on are not yet filled.
    pub symbols: Seq<u8>,
    /// The number of symbols collected.
    pub count: nat,
    /// The dibits of the current word, first dibit most significant.
    pub word: nat,
    /// The number of dibits of the current word received.
    pub word_dibits: nat,
}

/// The decoder state after one more dibit.
pub open spec fn extra_next(e: SymbolCollector, d: Dibit) -> SymbolCollector {
    let w = (e.word * 4 + d@) as nat;
    if e.word_dibits + 1 < 5 {
        SymbolCollector { word: w, word_dibits: e.word_dibits + 1, ..e }
    } else if e.count < 24 {
        SymbolCollector {
            symbols: e.symbols.update(e.count as int, extra_symbol(w as u16)),
            count: e.count + 1,
            word: 0,
            word_dibits: 0,
        }
    } else {
        SymbolCollector { word: 0, word_dibits: 0, ..e }
    }
}

/// Feeding a dibit keeps the decoder state well formed.
pub proof fn lemma_extra_next_wf(e: SymbolCollector, d: Dibit)
    requires
        extra_wf(e),
    ensures
        extra_wf(extra_next(e, d)),
{
    reveal_with_fuel(pow4, 6);
}

/// Whether the dibit completes a piece: it completes a word and leaves a
/// multiple of four symbols.
pub open spec fn extra_piece_done(e: SymbolCollector, d: Dibit) -> bool {
    e.word_dibits + 1 >= 5 && extra_next(e, d).count % 4 == 0
}

/// Link Control decoding of 24 symbols (RS short): the symbols afterwards,
/// with the corrected data symbols in the first 12 slots, and the 9 bytes,
/// or `None` (symbols unchanged) where the errors cannot be corrected.
#[verifier::opaque]
pub open spec fn lc_symbols_decoding(s: Seq<u8>) -> (Seq<u8>, Option<Seq<u8>>) {
    match rs_decode_word(s, 12, 12) {
        None => (s, None),
        Some((data, _)) => (data + s.subrange(12, 24), Some(packed_bytes(data, 9))),
    }
}

/// Crypto Control decoding of 24 symbols (RS medium): the symbols
/// afterwards, with the corrected data symbols in the first 16 slots, and
/// the 12 bytes, or `None` (symbols unchanged) where the errors cannot be
/// corrected.
#[verifier::opaque]
pub open spec fn cc_symbols_decoding(s: Seq<u8>) -> (Seq<u8>, Option<Seq<u8>>) {
    match rs_decode_word(s, 8, 16) {
        None => (s, None),
        Some((data, _)) => (data + s.subrange(16, 24), Some(packed_bytes(data, 12))),
    }
}

/// Link Control decoding of the collected symbols.
pub open spec fn lc_decoding(e: SymbolCollector) -> (SymbolCollector, Option<Seq<u8>>) {
    (SymbolCollector { symbols: lc_symbols_decoding(e.symbols).0, ..e }, lc_symbols_decoding(e.symbols).1)
}

/// Crypto Control decoding of the collected symbols.
pub open spec fn cc_decoding(e: SymbolCollector) -> (SymbolCollector, Option<Seq<u8>>) {
    (SymbolCollector { symbols: cc_symbols_decoding(e.symbols).0, ..e }, cc_symbols_decoding(e.symbols).1)
}

/// The corrected data symbols written back over the first `k` of `s`
/// give the same first `n` bytes as the data symbols themselves.
pub proof fn lemma_written_back(s: Seq<u8>, t2: nat, k: nat, n: nat)
    requires
        k <= s.len(),
        8 * n <= 6 * k,
    ensures
        rs_decode_word(s, t2, k) matches Some((d, _)) ==> {
            &&& d.len() == k
            &&& (d + s.subrange(k as int, s.len() as int)).len() == s.len()
            &&& packed_bytes(d + s.subrange(k as int, s.len() as int), n) == packed_bytes(d, n)
        },
{
    reed_solomon::lemma_rs_decode_len(s, t2, k);
    if let Some((d, _)) = rs_decode_word(s, t2, k) {
        let w = d + s.subrange(k as int, s.len() as int);
        assert(w.subrange(0, k as int) =~= d.subrange(0, k as int));
        lemma_packed_prefix(w, d, n, k);
    }
}

/// Link Control decoding reads its bytes from the corrected symbols: when
/// it succeeds, the 9 bytes are the packing of the first 12 symbols it
/// leaves behind (the Reed-Solomon corrected data), and the parity symbols
/// are left as received.
pub proof fn lemma_lc_bytes_corrected(s: Seq<u8>)
    requires
        s.len() == 24,
    ensures
        lc_symbols_decoding(s).0.len() == 24,
        lc_symbols_decoding(s).0.subrange(12, 24) == s.subrange(12, 24),
        lc_symbols_decoding(s).1 matches Some(b) ==> b == packed_bytes(lc_symbols_decoding(s).0, 9),
        rs_decode_word(s, 12, 12) matches Some((d, _)) ==> lc_symbols_decoding(s).0.subrange(0, 12) == d
            && lc_symbols_decoding(s).1 == Some(packed_bytes(d, 9)),
        rs_decode_word(s, 12, 12) is None ==> lc_symbols_decoding(s) == (s, None::<Seq<u8>>),
{
    reveal(lc_symbols_decoding);
    lemma_written_back(s, 12, 12, 9);
    if let Some((d, _)) = rs_decode_word(s, 12, 12) {
        assert((d + s.subrange(12, 24)).subrange(12, 24) =~= s.subrange(12, 24));
        assert((d + s.subrange(12, 24)).subrange(0, 12) =~= d);
    }
}

/// Crypto Control decoding reads its bytes from the corrected symbols:
/// when it succeeds, the 12 bytes are the packing of the first 16 symbols
/// it leaves behind, and the parity symbols are left as received.
pub proof fn lemma_cc_bytes_corrected(s: Seq<u8>)
    requires
        s.len() == 24,
    ensures
        cc_symbols_decoding(s).0.len() == 24,
        cc_symbols_decoding(s).0.subrange(16, 24) == s.subrange(16, 24),
        cc_symbols_decoding(s).1 matches Some(b) ==> b == packed_bytes(cc_symbols_decoding(s).0, 12),
        rs_decode_word(s, 8, 16) matches Some((d, _)) ==> cc_symbols_decoding(s).0.subrange(0, 16) == d
            && cc_symbols_decoding(s).1 == Some(packed_bytes(d, 12)),
        rs_decode_word(s, 8, 16) is None ==> cc_symbols_decoding(s) == (s, None::<Seq<u8>>),
{
    reveal(cc_symbols_decoding);
    lemma_written_back(s, 8, 16, 12);
    if let Some((d, _)) = rs_decode_word(s, 8, 16) {
        assert((d + s.subrange(16, 24)).subrange(16, 24) =~= s.subrange(16, 24));
        assert((d + s.subrange(16, 24)).subrange(0, 16) =~= d);
    }
}

/// A Link Control word sent without errors decodes to the packing of its
/// data symbols, and is left unchanged.
pub proof fn lemma_lc_encoded(d: Seq<u8>)
    requires
        d.len() == 24,
        reed_solomon::symbols_fit(d),
    ensures
        ({
            let w = reed_solomon::systematic_word(d, reed_solomon::short::generator(), 12);
            lc_symbols_decoding(w) == (w, Some(packed_bytes(d, 9)))
        }),
{
    let w = reed_solomon::systematic_word(d, reed_solomon::short::generator(), 12);
    reveal(lc_symbols_decoding);
    reed_solomon::short::lemma_encode_roundtrip(d);
    assert(w.subrange(0, 12) + w.subrange(12, 24) =~= w);
    assert(w.subrange(0, 12) =~= d.subrange(0, 12));
    assert(d.subrange(0, 12).subrange(0, 12) =~= d.subrange(0, 12));
    lemma_packed_prefix(d.subrange(0, 12), d, 9, 12);
}

/// A Crypto Control word sent without errors decodes to the packing of
/// its data symbols, and is left unchanged.
pub proof fn lemma_cc_encoded(d: Seq<u8>)
    requires
        d.len() == 24,
        reed_solomon::symbols_fit(d),
    ensures
        ({
            let w = reed_solomon::systematic_word(d, reed_solomon::medium::generator(), 16);
            cc_symbols_decoding(w) == (w, Some(packed_bytes(d, 12)))
        }),
{
    let w = reed_solomon::systematic_word(d, reed_solomon::medium::generator(), 16);
    reveal(cc_symbols_decoding);
    reed_solomon::medium::lemma_encode_roundtrip(d);
    assert(w.subrange(0, 16) + w.subrange(16, 24) =~= w);
    assert(w.subrange(0, 16) =~= d.subrange(0, 16));
    assert(d.subrange(0, 16).subrange(0, 16) =~= d.subrange(0, 16));
    lemma_packed_prefix(d.subrange(0, 16), d, 12, 16);
}

/// Decode 24 symbols as Link Control (RS short): on success the corrected
/// data symbols replace the first 12.
#[verifier::rlimit(40)]
pub fn decode_link_control_symbols(hexbits: &mut [Hexbit; 24]) -> (r: Result<LinkControlFields, P25Error>)
    ensures
        hexbit_values(final(hexbits)@) == lc_symbols_decoding(hexbit_values(old(hexbits)@)).0,
        match lc_symbols_decoding(hexbit_values(old(hexbits)@)).1 {
            None => r == Err::<LinkControlFields, P25Error>(P25Error::RsShortUnrecoverable),
            Some(bytes) => r matches Ok(lc) && lc@ == bytes,
        },
        r matches Ok(lc) ==> lc@ == packed_bytes(hexbit_values(final(hexbits)@), 9),
{
    proof {
        lemma_lc_bytes_corrected(hexbit_values(old(hexbits)@));
        reveal(lc_symbols_decoding);
    }
    match reed_solomon::short::decode(hexbits) {
        Some((data, _errors)) => {
            let b = pack_bytes(data.as_slice(), 9);
            let bytes = [b[0], b[1], b[2], b[3], b[4], b[5], b[6], b[7], b[8]];
            assert(bytes@ =~= b@);
            Ok(LinkControlFields::new(bytes))
        },
        None => Err(P25Error::RsShortUnrecoverable),
    }
}

/// Decode 24 symbols as Crypto Control (RS medium): on success the
/// corrected data symbols replace the first 16.
#[verifier::rlimit(40)]
pub fn decode_crypto_control_symbols(hexbits: &mut [Hexbit; 24]) -> (r: Result<CryptoControlFields, P25Error>)
    ensures
        hexbit_values(final(hexbits)@) == cc_symbols_decoding(hexbit_values(old(hexbits)@)).0,
        match cc_symbols_decoding(hexbit_values(old(hexbits)@)).1 {
            None => r == Err::<CryptoControlFields, P25Error>(P25Error::RsMediumUnrecoverable),
            Some(bytes) => r matches Ok(cc) && cc@ == bytes,
        },
        r matches Ok(cc) ==> cc@ == packed_bytes(hexbit_values(final(hexbits)@), 12),
{
    proof {
        lemma_cc_bytes_corrected(hexbit_values(old(hexbits)@));
        reveal(cc_symbols_decoding);
    }
    match reed_solomon::medium::decode(hexbits) {
        Some((data, _errors)) => {
            let b = pack_bytes(data.as_slice(), 12);
            let bytes = [b[0], b[1], b[2], b[3], b[4], b[5], b[6], b[7], b[8], b[9], b[10], b[11]];
            assert(bytes@ =~= b@);
            Ok(CryptoControlFields::new(bytes))
        },
        None => Err(P25Error::RsMediumUnrecoverable),
    }
}

/// Accumulates extra pieces and decodes hexbits for the LC/CC payload.
///
/// Each of the 6 extra pieces is 20 dibits = 4 coded words of 5 dibits
/// each. Each 5-dibit word decodes via Hamming(10,6,3) to one hexbit.
/// After all 6 pieces (24 hexbits), Reed-Solomon decoding recovers the
/// payload bytes.
pub struct ExtraReceiver {
    /// Accumulated hexbits from all pieces so far.
    hexbits: [Hexbit; 24],
    /// Number of hexbits collected.
    hexbit_count: usize,
    /// Dibit accumulator for the current 5-dibit word.
    word_accumulator: u16,
    /// Number of dibits in the current word.
    word_dibit_count: usize,
}

impl View for ExtraReceiver {
    type V = SymbolCollector;

    closed spec fn view(&self) -> SymbolCollector {
        SymbolCollector {
            symbols: hexbit_values(self.hexbits@),
            count: self.hexbit_count as nat,
            word: self.word_accumulator as nat,
            word_dibits: self.word_dibit_count as nat,
        }
    }
}

/// The invariant of an extra packet decoder's state.
pub open spec fn extra_wf(e: SymbolCollector) -> bool {
    &&& e.count <= 24
    &&& e.word_dibits < 5
    &&& e.word < pow4(e.word_dibits)
}

impl ExtraReceiver {
    /// Create an empty receiver.
    pub fn new() -> (r: Self)
        ensures
            r@ == (SymbolCollector { symbols: Seq::new(24, |i: int| 0u8), count: 0, word: 0, word_dibits: 0 }),
    {
        let r = Self {
            hexbits: [Hexbit::new(0); 24],
            hexbit_count: 0,
            word_accumulator: 0,
            word_dibit_count: 0,
        };
        assert(r@.symbols =~= Seq::new(24, |i: int| 0u8));
        r
    }

    /// Feed one dibit. Returns `true` when the current piece is complete
    /// (every 20 dibits).
    pub fn feed(&mut self, dibit: Dibit) -> (r: bool)
        requires
            extra_wf(old(self)@),
        ensures
            final(self)@ == extra_next(old(self)@, dibit),
            r == extra_piece_done(old(self)@, dibit),
    {
        proof {
            reveal_with_fuel(pow4, 6);
        }
        let ghost w = self.word_accumulator * 4 + dibit@;
        self.word_accumulator = self.word_accumulator * 4 + dibit.bits() as u16;
        self.word_dibit_count += 1;

        if self.word_dibit_count < 5 {
            return false;
        }

        // Complete 5-dibit word (10 bits) -- decode via Hamming.
        let word = self.word_accumulator & 0x03FF;
        proof {
            crate::p25::bitwise::lemma_mask_u16(self.word_accumulator);
            vstd::arithmetic::div_mod::lemma_small_mod(self.word_accumulator as nat, 1024);
        }
        self.word_accumulator = 0;
        self.word_dibit_count = 0;

        let hexbit_value = match hamming::shortened::decode(word) {
            Some((data, _errors)) => data,
            // Let the Reed-Solomon stage attempt to fix this; store 0.
            None => 0,
        };

        if self.hexbit_count < 24 {
            self.hexbits[self.hexbit_count] = Hexbit::new(hexbit_value);
            self.hexbit_count += 1;
            proof {
                assert(self@.symbols =~= old(self)@.symbols.update(old(self)@.count as int, extra_symbol(w as u16)));
            }
        }

        // A piece is 20 dibits = 4 words: a piece boundary falls at every
        // fourth symbol.
        self.hexbit_count % 4 == 0
    }

    /// Whether all 24 hexbits have been collected.
    pub fn complete(&self) -> (r: bool)
        ensures
            r == (self@.count >= 24),
    {
        self.hexbit_count >= 24
    }

    /// The number of hexbits collected.
    pub fn hexbit_count(&self) -> (r: usize)
        ensures
            r == self@.count,
    {
        self.hexbit_count
    }

    /// Decode as Link Control (RS short), consuming the accumulated
    /// hexbits: the corrected data symbols replace the first 12 slots.
    pub fn decode_link_control(&mut self) -> (r: Result<LinkControlFields, P25Error>)
        ensures
            final(self)@ == lc_decoding(old(self)@).0,
            match lc_decoding(old(self)@).1 {
                None => r == Err::<LinkControlFields, P25Error>(P25Error::RsShortUnrecoverable),
                Some(bytes) => r matches Ok(lc) && lc@ == bytes,
            },
    {
        decode_link_control_symbols(&mut self.hexbits)
    }

    /// Decode as Crypto Control (RS medium), consuming the accumulated
    /// hexbits: the corrected data symbols replace the first 16 slots.
    pub fn decode_crypto_control(&mut self) -> (r: Result<CryptoControlFields, P25Error>)
        ensures
            final(self)@ == cc_decoding(old(self)@).0,
            match cc_decoding(old(self)@).1 {
                None => r == Err::<CryptoControlFields, P25Error>(P25Error::RsMediumUnrecoverable),
                Some(bytes) => r matches Ok(cc) && cc@ == bytes,
            },
    {
        decode_crypto_control_symbols(&mut self.hexbits)
    }
}

/// Decoding keeps the state well formed.
pub proof fn lemma_decodings_wf(e: SymbolCollector)
    requires
        extra_wf(e),
    ensures
        extra_wf(lc_decoding(e).0),
        extra_wf(cc_decoding(e).0),
{
}

// ---------------------------------------------------------------------------
// Data fragment decoder
// ---------------------------------------------------------------------------

/// The byte carried by a 16-bit low-speed data code word: its cyclic
/// (16,8,5) decoding, or `None` where that fails.
pub open spec fn fragment_byte(word: u16) -> Option<u8> {
    match cyclic::spec_decode_base(word as u32) {
        Some((data, _)) => if data >> 8u16 == 0 {
            Some(data as u8)
        } else {
            None
        },
        None => None,
    }
}

/// The state of a low-speed data decoder.
pub struct FragmentModel {
    /// The dibits of the current word, first dibit most significant.
    pub word: nat,
    /// The number of dibits of the current word received.
    pub word_dibits: nat,
    /// The first decoded byte, once there is one.
    pub first: Option<u8>,
}

/// The invariant of a low-speed data decoder's state.
pub open spec fn fragment_wf(f: FragmentModel) -> bool {
    f.word_dibits < 8 && f.word < pow4(f.word_dibits)
}

/// The decoder state after one more dibit, and what it reports: the 16-bit
/// value once both code words are decoded, an error when a code word
/// cannot be decoded, and nothing otherwise.
pub open spec fn fragment_next(f: FragmentModel, d: Dibit) -> (FragmentModel, Option<Result<u16, P25Error>>) {
    let w = (f.word * 4 + d@) as nat;
    if f.word_dibits + 1 < 8 {
        (FragmentModel { word: w, word_dibits: f.word_dibits + 1, ..f }, None)
    } else {
        let reset = FragmentModel { word: 0, word_dibits: 0, ..f };
        match fragment_byte(w as u16) {
            None => (reset, Some(Err(P25Error::CyclicUnrecoverable))),
            Some(b) => match f.first {
                None => (FragmentModel { first: Some(b), ..reset }, None),
                Some(hi) => (reset, Some(Ok((hi * 256 + b) as u16))),
            },
        }
    }
}

/// Feeding a dibit keeps the decoder state well formed.
pub proof fn lemma_fragment_next_wf(f: FragmentModel, d: Dibit)
    requires
        fragment_wf(f),
    ensures
        fragment_wf(fragment_next(f, d).0),
{
    reveal_with_fuel(pow4, 9);
}

/// Accumulates the low-speed data fragment and decodes via cyclic code.
///
/// Per TIA-102.BAAA-B Figures 31/32: "LSD, 32 bits, 2 cyclic code words".
/// Each code word is 8 dibits (16 bits), decoded via cyclic(16,8,5) to one
/// data byte. The two bytes form a 16-bit low-speed data word.
pub struct DataFragmentReceiver {
    /// Dibit accumulator for the current coded word.
    word_accumulator: u16,
    /// Number of dibits in the current word.
    word_dibit_count: usize,
    /// First decoded byte (high byte of the result), if already decoded.
    first_byte: Option<u8>,
}

impl View for DataFragmentReceiver {
    type V = FragmentModel;

    closed spec fn view(&self) -> FragmentModel {
        FragmentModel {
            word: self.word_accumulator as nat,
            word_dibits: self.word_dibit_count as nat,
            first: self.first_byte,
        }
    }
}

impl DataFragmentReceiver {
    /// Create an empty receiver.
    pub fn new() -> (r: Self)
        ensures
            r@ == (FragmentModel { word: 0, word_dibits: 0, first: None }),
    {
        Self { word_accumulator: 0, word_dibit_count: 0, first_byte: None }
    }

    /// Feed one dibit. Returns `Some(Ok(value))` when both cyclic code words
    /// have been decoded, `Some(Err(_))` if a cyclic decode fails, and
    /// `None` otherwise.
    pub fn feed(&mut self, dibit: Dibit) -> (r: Option<Result<u16, P25Error>>)
        requires
            fragment_wf(old(self)@),
        ensures
            (final(self)@, r) == fragment_next(old(self)@, dibit),
    {
        proof {
            reveal_with_fuel(pow4, 9);
        }
        self.word_accumulator = self.word_accumulator * 4 + dibit.bits() as u16;
        self.word_dibit_count += 1;

        if self.word_dibit_count < 8 {
            return None;
        }

        // One complete 8-dibit (16-bit) cyclic codeword collected.
        let word = self.word_accumulator;
        self.word_accumulator = 0;
        self.word_dibit_count = 0;

        let data_byte = match cyclic::decode(word) {
            Some((data, _errors)) => data,
            None => return Some(Err(P25Error::CyclicUnrecoverable)),
        };

        match self.first_byte {
            None => {
                // First codeword decoded: keep the high byte, wait for the second.
                self.first_byte = Some(data_byte);
                None
            },
            Some(hi) => {
                // Second codeword decoded: combine into the 16-bit result.
                Some(Ok((hi as u16) * 256 + data_byte as u16))
            },
        }
    }
}

// ---------------------------------------------------------------------------
// Frame group events
// ---------------------------------------------------------------------------

/// Events produced during frame group decoding.
#[derive(Debug)]
pub enum FrameGroupEvent {
    /// A decoded IMBE voice frame.
    VoiceFrame(VoiceFrame),
    /// A decoded Link Control word (from LDU1).
    LinkControl(LinkControlFields),
    /// A decoded Crypto Control word (from LDU2).
    CryptoControl(CryptoControlFields),
    /// A 16-bit low-speed data fragment.
    DataFragment(u16),
    /// A non-fatal decode error.
    Error(P25Error),
}

// ---------------------------------------------------------------------------
// Frame group state machine
// ---------------------------------------------------------------------------

/// Position of the receiver within the frame group structure.
#[derive(Clone, Copy, Debug, PartialEq, Eq)]
pub enum Phase {
    /// Collecting dibits for a voice frame.
    VoiceFrame,
    /// Collecting dibits for an extra piece.
    Extra,
    /// Collecting dibits for the low-speed data fragment.
    DataFragment,
    /// Frame group decoding is complete.
    Done,
}

/// The type of extra data carried in this frame group.
#[derive(Debug, Clone, Copy, PartialEq, Eq)]
pub enum FrameGroupType {
    /// LDU1: carries Link Control (RS short).
    LinkControl,
    /// LDU2: carries Crypto Control (RS medium).
    CryptoControl,
}

/// The state of a frame group receiver.
pub struct FrameGroupModel {
    /// What type of extra data is decoded.
    pub group_type: FrameGroupType,
    /// Position within the frame group.
    pub phase: Phase,
    /// The dibits of the voice frame being collected.
    pub frame: Seq<Dibit>,
    /// The number of voice frames completed.
    pub frames_done: nat,
    /// The extra packet decoder.
    pub extra: SymbolCollector,
    /// The low-speed data decoder.
    pub fragment: FragmentModel,
    /// The number of dibits of the current extra piece received.
    pub extra_dibits: nat,
}

/// What follows the `n`-th voice frame: frame 2 after frame 1, an extra
/// piece after frames 2 through 7, the data fragment after frame 8, and
/// the end after frame 9.
pub open spec fn phase_after_frame(n: nat) -> Phase {
    if n == 1 {
        Phase::VoiceFrame
    } else if 2 <= n <= 7 {
        Phase::Extra
    } else if n == 8 {
        Phase::DataFragment
    } else {
        Phase::Done
    }
}

/// The invariant of a frame group receiver's state.
pub open spec fn frame_group_wf(m: FrameGroupModel) -> bool {
    &&& m.frame.len() < 72
    &&& extra_wf(m.extra)
    &&& fragment_wf(m.fragment)
    &&& m.extra_dibits < 20
    &&& m.frames_done <= 9
    &&& (m.phase == Phase::VoiceFrame ==> m.frames_done < 9)
    &&& (m.phase == Phase::Extra ==> 2 <= m.frames_done <= 7)
    &&& (m.phase == Phase::DataFragment ==> m.frames_done == 8)
}

/// The extra decoder after a completed piece: decoded when all 24 symbols
/// are in.
pub open spec fn extra_after_piece(e: SymbolCollector, t: FrameGroupType) -> SymbolCollector {
    if e.count >= 24 {
        match t {
            FrameGroupType::LinkControl => lc_decoding(e).0,
            FrameGroupType::CryptoControl => cc_decoding(e).0,
        }
    } else {
        e
    }
}

/// The receiver state after one more dibit.
pub open spec fn frame_group_next(m: FrameGroupModel, d: Dibit) -> FrameGroupModel {
    match m.phase {
        Phase::Done => m,
        Phase::VoiceFrame => {
            let buf = m.frame.push(d);
            if buf.len() < 72 {
                FrameGroupModel { frame: buf, ..m }
            } else {
                FrameGroupModel {
                    frame: Seq::empty(),
                    frames_done: m.frames_done + 1,
                    phase: phase_after_frame(m.frames_done + 1),
                    ..m
                }
            }
        },
        Phase::Extra => {
            let e = extra_next(m.extra, d);
            if m.extra_dibits + 1 < 20 {
                FrameGroupModel { extra: e, extra_dibits: m.extra_dibits + 1, ..m }
            } else {
                FrameGroupModel {
                    extra: extra_after_piece(e, m.group_type),
                    extra_dibits: 0,
                    phase: Phase::VoiceFrame,
                    ..m
                }
            }
        },
        Phase::DataFragment => {
            let (f, out) = fragment_next(m.fragment, d);
            FrameGroupModel {
                fragment: f,
                phase: if out is Some {
                    Phase::VoiceFrame
                } else {
                    Phase::DataFragment
                },
                ..m
            }
        },
    }
}

/// The event reported for one more dibit: a decoded voice frame (or its
/// decode error) when a frame completes, the Link Control or Crypto
/// Control word (or its decode error) when the sixth extra piece
/// completes, the low-speed data value (or its decode error) when the data
/// fragment completes, and nothing otherwise.
pub open spec fn frame_group_event(m: FrameGroupModel, d: Dibit, r: Option<FrameGroupEvent>) -> bool {
    match m.phase {
        Phase::Done => r is None,
        Phase::VoiceFrame => {
            let buf = m.frame.push(d);
            if buf.len() < 72 {
                r is None
            } else {
                match r {
                    Some(FrameGroupEvent::VoiceFrame(f)) => frame_decoded(buf, Ok(f)),
                    Some(FrameGroupEvent::Error(e)) => frame_decoded(buf, Err(e)),
                    _ => false,
                }
            }
        },
        Phase::Extra => {
            let e = extra_next(m.extra, d);
            if m.extra_dibits + 1 >= 20 && e.count >= 24 {
                match m.group_type {
                    FrameGroupType::LinkControl => match lc_decoding(e).1 {
                        None => r == Some(FrameGroupEvent::Error(P25Error::RsShortUnrecoverable)),
                        Some(b) => r matches Some(FrameGroupEvent::LinkControl(lc)) && lc@ == b,
                    },
                    FrameGroupType::CryptoControl => match cc_decoding(e).1 {
                        None => r == Some(FrameGroupEvent::Error(P25Error::RsMediumUnrecoverable)),
                        Some(b) => r matches Some(FrameGroupEvent::CryptoControl(cc)) && cc@ == b,
                    },
                }
            } else {
                r is None
            }
        },
        Phase::DataFragment => match fragment_next(m.fragment, d).1 {
            None => r is None,
            Some(Ok(v)) => r == Some(FrameGroupEvent::DataFragment(v)),
            Some(Err(e)) => r == Some(FrameGroupEvent::Error(e)),
        },
    }
}

/// Receives and decodes a complete LDU frame group (LDU1 or LDU2).
///
/// Feed dibits one at a time via [`feed()`](Self::feed). The receiver
/// tracks its position within the frame group structure and emits events
/// as voice frames, extra packets, and data fragments are decoded.
pub struct FrameGroupReceiver {
    /// What type of extra data we're decoding.
    group_type: FrameGroupType,
    /// Current position in the frame group structure.
    state: Phase,
    /// Current voice frame dibit buffer (indexed by `frame_buffer_count`).
    frame_buffer: [Dibit; 72],
    /// Number of dibits collected in the current frame.
    frame_buffer_count: usize,
    /// Extra piece accumulator (persists across pieces).
    extra: ExtraReceiver,
    /// Data fragment decoder.
    data_fragment: DataFragmentReceiver,
    /// Dibit count within the current extra piece.
    extra_dibit_count: usize,
    /// Which voice frame we're on (0-indexed, 0..9).
    frame_index: usize,
}

impl View for FrameGroupReceiver {
    type V = FrameGroupModel;

    closed spec fn view(&self) -> FrameGroupModel {
        FrameGroupModel {
            group_type: self.group_type,
            phase: self.state,
            frame: self.frame_buffer@.subrange(0, self.frame_buffer_count as int),
            frames_done: self.frame_index as nat,
            extra: self.extra@,
            fragment: self.data_fragment@,
            extra_dibits: self.extra_dibit_count as nat,
        }
    }
}

/// The state of a fresh receiver for the given type.
pub open spec fn frame_group_start(t: FrameGroupType) -> FrameGroupModel {
    FrameGroupModel {
        group_type: t,
        phase: Phase::VoiceFrame,
        frame: Seq::empty(),
        frames_done: 0,
        extra: SymbolCollector { symbols: Seq::new(24, |i: int| 0u8), count: 0, word: 0, word_dibits: 0 },
        fragment: FragmentModel { word: 0, word_dibits: 0, first: None },
        extra_dibits: 0,
    }
}

impl FrameGroupReceiver {
    /// The receiver's invariant.
    pub closed spec fn wf(&self) -> bool {
        &&& self.frame_buffer_count < 72
        &&& frame_group_wf(self@)
    }

    /// The receiver's invariant covers the invariant of its state.
    pub proof fn lemma_wf(&self)
        requires
            self.wf(),
        ensures
            frame_group_wf(self@),
    {
    }

    /// Create a new frame group receiver for the given type.
    pub fn new(group_type: FrameGroupType) -> (r: Self)
        ensures
            r.wf(),
            r@ == frame_group_start(group_type),
    {
        let r = Self {
            group_type,
            state: Phase::VoiceFrame,
            frame_buffer: [Dibit::new(0); 72],
            frame_buffer_count: 0,
            extra: ExtraReceiver::new(),
            data_fragment: DataFragmentReceiver::new(),
            extra_dibit_count: 0,
            frame_index: 0,
        };
        assert(r@.frame =~= Seq::<Dibit>::empty());
        proof {
            reveal_with_fuel(pow4, 1);
        }
        r
    }

    /// Whether the full frame group (all 9 frames) has been received.
    pub fn is_done(&self) -> (r: bool)
        ensures
            r == (self@.phase == Phase::Done),
    {
        match self.state {
            Phase::Done => true,
            _ => false,
        }
    }

    /// The number of voice frames completed.
    pub fn frame_index(&self) -> (r: usize)
        ensures
            r == self@.frames_done,
    {
        self.frame_index
    }

    /// Feed one data dibit into the receiver.
    ///
    /// Returns an event when a component is decoded, or `None` when more
    /// dibits are needed.
    pub fn feed(&mut self, dibit: Dibit) -> (r: Option<FrameGroupEvent>)
        requires
            old(self).wf(),
        ensures
            final(self).wf(),
            final(self)@ == frame_group_next(old(self)@, dibit),
            frame_group_event(old(self)@, dibit, r),
    {
        match self.state {
            Phase::VoiceFrame => self.feed_voice_frame(dibit),
            Phase::Extra => self.feed_extra(dibit),
            Phase::DataFragment => self.feed_data_fragment(dibit),
            Phase::Done => None,
        }
    }

    /// Collect a voice frame dibit.
    fn feed_voice_frame(&mut self, dibit: Dibit) -> (r: Option<FrameGroupEvent>)
        requires
            old(self).wf(),
            old(self)@.phase == Phase::VoiceFrame,
        ensures
            final(self).wf(),
            final(self)@ == frame_group_next(old(self)@, dibit),
            frame_group_event(old(self)@, dibit, r),
    {
        self.frame_buffer[self.frame_buffer_count] = dibit;
        self.frame_buffer_count += 1;
        assert(self.frame_buffer@.subrange(0, self.frame_buffer_count as int) =~= old(self)@.frame.push(dibit));

        if self.frame_buffer_count < 72 {
            return None;
        }

        // Decode the complete voice frame.
        let frame_array = self.frame_buffer;
        assert(frame_array@ =~= old(self)@.frame.push(dibit));
        self.frame_buffer_count = 0;
        self.frame_index += 1;
        assert(self@.frame =~= Seq::<Dibit>::empty());

        // Determine the next phase from the frame's position.
        self.state = if self.frame_index == 1 {
            Phase::VoiceFrame
        } else if self.frame_index <= 7 {
            Phase::Extra
        } else if self.frame_index == 8 {
            Phase::DataFragment
        } else {
            Phase::Done
        };

        match VoiceFrame::decode(&frame_array) {
            Ok(frame) => Some(FrameGroupEvent::VoiceFrame(frame)),
            Err(err) => Some(FrameGroupEvent::Error(err)),
        }
    }

    /// Collect an extra piece dibit.
    fn feed_extra(&mut self, dibit: Dibit) -> (r: Option<FrameGroupEvent>)
        requires
            old(self).wf(),
            old(self)@.phase == Phase::Extra,
        ensures
            final(self).wf(),
            final(self)@ == frame_group_next(old(self)@, dibit),
            frame_group_event(old(self)@, dibit, r),
    {
        proof {
            lemma_extra_next_wf(self.extra@, dibit);
        }
        self.extra.feed(dibit);
        self.extra_dibit_count += 1;

        if self.extra_dibit_count >= 20 {
            // Piece complete: the next voice frame follows.
            self.extra_dibit_count = 0;
            self.state = Phase::VoiceFrame;

            // With all 6 pieces collected, decode the extra payload.
            if self.extra.complete() {
                proof {
                    lemma_decodings_wf(self.extra@);
                }
                let event = match self.group_type {
                    FrameGroupType::LinkControl => match self.extra.decode_link_control() {
                        Ok(lc) => FrameGroupEvent::LinkControl(lc),
                        Err(err) => FrameGroupEvent::Error(err),
                    },
                    FrameGroupType::CryptoControl => match self.extra.decode_crypto_control() {
                        Ok(cc) => FrameGroupEvent::CryptoControl(cc),
                        Err(err) => FrameGroupEvent::Error(err),
                    },
                };
                return Some(event);
            }
        }
        None
    }

    /// Collect a data fragment dibit.
    fn feed_data_fragment(&mut self, dibit: Dibit) -> (r: Option<FrameGroupEvent>)
        requires
            old(self).wf(),
            old(self)@.phase == Phase::DataFragment,
        ensures
            final(self).wf(),
            final(self)@ == frame_group_next(old(self)@, dibit),
            frame_group_event(old(self)@, dibit, r),
    {
        proof {
            lemma_fragment_next_wf(self.data_fragment@, dibit);
        }
        match self.data_fragment.feed(dibit) {
            Some(Ok(data)) => {
                self.state = Phase::VoiceFrame;
                Some(FrameGroupEvent::DataFragment(data))
            },
            Some(Err(err)) => {
                self.state = Phase::VoiceFrame;
                Some(FrameGroupEvent::Error(err))
            },
            None => None,
        }
    }
}

/// A finished frame group receiver ignores further dibits: its state
/// stays the same and it reports nothing.
pub proof fn lemma_done_absorbing(m: FrameGroupModel, d: Dibit, r: Option<FrameGroupEvent>)
    requires
        m.phase == Phase::Done,
        frame_group_event(m, d, r),
    ensures
        frame_group_next(m, d) == m,
        r is None,
{
}

/// A voice frame event comes exactly when a frame's 72nd dibit arrives.
pub proof fn lemma_voice_frame_timing(m: FrameGroupModel, d: Dibit, r: Option<FrameGroupEvent>)
    requires
        frame_group_wf(m),
        m.phase == Phase::VoiceFrame,
        frame_group_event(m, d, r),
    ensures
        (r is Some) == (m.frame.len() + 1 == 72),
        r is Some ==> frame_group_next(m, d).frames_done == m.frames_done + 1,
{
}

/// The dibits a receiver has consumed since it started, read off its
/// state: 72 per completed voice frame and those of the frame in progress,
/// 20 per completed extra piece and those of the piece in progress, and 8
/// per code word of the data fragment handled (one word when the first
/// failed, two otherwise).
pub open spec fn frame_group_progress(m: FrameGroupModel) -> nat {
    let frames = m.frames_done * 72 + m.frame.len();
    let extras = if m.phase == Phase::Extra {
        ((m.frames_done - 2) * 20 + m.extra_dibits) as nat
    } else if m.frames_done <= 1 {
        0nat
    } else if m.frames_done <= 7 {
        ((m.frames_done - 1) * 20) as nat
    } else {
        120nat
    };
    let words = if m.fragment.first is Some {
        8nat
    } else {
        0nat
    };
    let fragment = if m.phase == Phase::DataFragment {
        words + m.fragment.word_dibits
    } else if m.frames_done >= 8 {
        words + 8
    } else {
        0nat
    };
    frames + extras + fragment
}

/// The states a fresh receiver passes through: well formed, with the
/// buffers of the phases not in progress empty.
pub open spec fn frame_group_reachable(m: FrameGroupModel) -> bool {
    &&& frame_group_wf(m)
    &&& m.phase != Phase::VoiceFrame ==> m.frame.len() == 0
    &&& m.phase != Phase::Extra ==> m.extra_dibits == 0
    &&& m.phase != Phase::DataFragment ==> m.fragment.word_dibits == 0
    &&& m.frames_done < 8 ==> m.fragment.first is None
    &&& m.phase == Phase::Done ==> m.frames_done == 9
}

/// A fresh receiver has consumed nothing.
pub proof fn lemma_frame_group_start(t: FrameGroupType)
    ensures
        frame_group_reachable(frame_group_start(t)),
        frame_group_progress(frame_group_start(t)) == 0,
{
    reveal_with_fuel(pow4, 1);
}

/// Until a frame group is done, every dibit fed counts once: the progress
/// grows by one and the state stays reachable; it never exceeds 784, and a
/// finished group has at least 776, so a fresh receiver is done after at
/// least 776 and at most 784 dibits (648 of voice frames, 120 of extra
/// data and 8 or 16 of low-speed data).
pub proof fn lemma_frame_group_progress(m: FrameGroupModel, d: Dibit)
    requires
        frame_group_reachable(m),
    ensures
        frame_group_progress(m) <= 784,
        m.phase != Phase::Done ==> frame_group_reachable(frame_group_next(m, d)) && frame_group_progress(
            frame_group_next(m, d),
        ) == frame_group_progress(m) + 1,
        m.phase != Phase::Done ==> frame_group_progress(m) < 784,
        m.phase == Phase::Done ==> frame_group_progress(m) >= 776,
{
    let n = frame_group_next(m, d);
    assert(m.frames_done * 72 <= 9 * 72) by (nonlinear_arith)
        requires
            m.frames_done <= 9,
    ;
    if m.phase == Phase::VoiceFrame {
        assert((m.frames_done + 1) * 72 == m.frames_done * 72 + 72) by (nonlinear_arith);
        assert(m.frames_done * 72 <= 8 * 72) by (nonlinear_arith)
            requires
                m.frames_done <= 8,
        ;
    } else if m.phase == Phase::Extra {
        assert((m.frames_done - 1) * 20 == (m.frames_done - 2) * 20 + 20) by (nonlinear_arith);
        assert((m.frames_done - 2) * 20 <= 100) by (nonlinear_arith)
            requires
                2 <= m.frames_done <= 7,
        ;
        lemma_extra_next_wf(m.extra, d);
    } else if m.phase == Phase::DataFragment {
        lemma_fragment_next_wf(m.fragment, d);
    }
}

/// The receiver state after feeding the dibits `ds` in order.
pub open spec fn frame_group_run(m: FrameGroupModel, ds: Seq<Dibit>) -> FrameGroupModel
    decreases ds.len(),
{
    if ds.len() == 0 {
        m
    } else {
        frame_group_next(frame_group_run(m, ds.drop_last()), ds.last())
    }
}

/// Feeding a fresh receiver: it is not done after fewer than 776 dibits,
/// it is done after 784, and once done it stays in the same state.
pub proof fn lemma_frame_group_run(t: FrameGroupType, ds: Seq<Dibit>)
    ensures
        frame_group_reachable(frame_group_run(frame_group_start(t), ds)),
        ds.len() < 776 ==> frame_group_run(frame_group_start(t), ds).phase != Phase::Done,
        ds.len() >= 784 ==> frame_group_run(frame_group_start(t), ds).phase == Phase::Done,
        frame_group_run(frame_group_start(t), ds).phase != Phase::Done ==> frame_group_progress(
            frame_group_run(frame_group_start(t), ds),
        ) == ds.len(),
        frame_group_run(frame_group_start(t), ds).phase == Phase::Done ==> forall|d: Dibit|
            #[trigger] frame_group_next(frame_group_run(frame_group_start(t), ds), d)
                == frame_group_run(frame_group_start(t), ds),
    decreases ds.len(),
{
    let m = frame_group_run(frame_group_start(t), ds);
    if ds.len() == 0 {
        lemma_frame_group_start(t);
    } else {
        let prev = frame_group_run(frame_group_start(t), ds.drop_last());
        lemma_frame_group_run(t, ds.drop_last());
        lemma_frame_group_progress(prev, ds.last());
        if prev.phase != Phase::Done {
            lemma_frame_group_progress(m, ds.last());
        }
    }
    let d: Dibit = vstd::pervasive::arbitrary();
    lemma_frame_group_progress(m, d);
}

} // verus!

//! Voice header (HDU) receiver for P25.
//!
//! The HDU begins each voice transmission. It carries crypto parameters
//! and talkgroup identity. Structure (after NID):
//! - 36 Golay-shortened(18,6,8) words of 9 dibits each = 324 dibits
//! - Each word decodes to one hexbit
//! - 36 hexbits -> RS long(36,20,17) -> 20 data hexbits -> 15 bytes
//!
//! Layout of the 15 decoded bytes:
//! - Bytes 0..9: Crypto initialization vector (MI, 72 bits)
//! - Byte 9: Manufacturer ID (MFID)
//! - Byte 10: Algorithm ID (ALGID)
//! - Bytes 11..13: Key ID (KID, 16 bits)
//! - Bytes 13..15: Talkgroup ID (TGID, 16 bits)

use vstd::prelude::*;
use vstd::string::StringExecFns;
use crate::p25::coding::golay;
use crate::p25::coding::reed_solomon::{self, hexbit_values, rs_decode_word};
use crate::p25::error::P25Error;
use crate::p25::text::{decimal, padded_digits, push_decimal, push_padded};
use crate::p25::types::{Dibit, Hexbit, TalkgroupId};
use crate::p25::voice::crypto::{algorithm_for, algorithm_text, CryptoAlgorithm};
use crate::p25::voice::frame_group::{packed_bytes, pack_bytes, pow4, SymbolCollector};

verus! {

broadcast use crate::p25::types::lemma_dibit_bound;

/// Decoded voice header fields (15 bytes).
#[derive(Clone, Debug, PartialEq, Eq)]
pub struct VoiceHeaderFields([u8; 15]);

impl View for VoiceHeaderFields {
    type V = Seq<u8>;

    /// The fifteen header bytes.
    closed spec fn view(&self) -> Seq<u8> {
        self.0@
    }
}

/// The display text of a header with the given bytes.
pub open spec fn header_text(b: Seq<u8>) -> Seq<char> {
    "algorithm="@ + algorithm_text(algorithm_for(b[10])) + ", key_id=0x"@ + padded_digits(
        (b[11] * 256 + b[12]) as nat,
        16,
        4,
    ) + ", talkgroup="@ + decimal((b[13] * 256 + b[14]) as nat)
}

impl VoiceHeaderFields {
    /// Create from a 15-byte buffer.
    pub fn new(buf: [u8; 15]) -> (r: Self)
        ensures
            r@ == buf@,
    {
        Self(buf)
    }

    /// The 9-byte crypto initialization vector (MI).
    pub fn crypto_init(&self) -> (r: &[u8])
        ensures
            r@ == self@.subrange(0, 9),
    {
        vstd::slice::slice_subrange(self.0.as_slice(), 0, 9)
    }

    /// Manufacturer ID.
    pub fn manufacturer_id(&self) -> (r: u8)
        ensures
            r == self@[9],
    {
        self.0[9]
    }

    /// Cryptographic algorithm in use.
    pub fn algorithm(&self) -> (r: CryptoAlgorithm)
        ensures
            r == algorithm_for(self@[10]),
    {
        CryptoAlgorithm::from_byte(self.0[10])
    }

    /// The 16-bit encryption key identifier.
    pub fn key_id(&self) -> (r: u16)
        ensures
            r == self@[11] * 256 + self@[12],
    {
        (self.0[11] as u16) * 256 + self.0[12] as u16
    }

    /// Talkgroup participating in the voice transmission.
    pub fn talkgroup(&self) -> (r: TalkgroupId)
        ensures
            r@ == self@[13] * 256 + self@[14],
    {
        TalkgroupId::new((self.0[13] as u16) * 256 + self.0[14] as u16)
    }

    /// Access the raw 15-byte buffer.
    pub fn raw(&self) -> (r: &[u8; 15])
        ensures
            r@ == self@,
    {
        &self.0
    }

    /// The display text: algorithm, key identifier and talkgroup.
    pub fn to_string(&self) -> (r: String)
        ensures
            r@ == header_text(self@),
    {
        let mut s = String::from_str("algorithm=");
        let a = self.algorithm().to_string();
        s.append(a.as_str());
        s.append(", key_id=0x");
        push_padded(&mut s, self.key_id() as u64, 16, 4);
        s.append(", talkgroup=");
        push_decimal(&mut s, self.talkgroup().value() as u64);
        s
    }
}

/// The hexbit carried by an 18-bit header word: its shortened Golay
/// decoding, or zero where that fails (the Reed-Solomon stage repairs it).
pub open spec fn header_symbol(word: u32) -> u8 {
    match golay::extended::spec_decode(word) {
        Some((data, _)) => if data >> 6u16 == 0 {
            data as u8
        } else {
            0
        },
        None => 0,
    }
}

/// Header decoding of 36 symbols (RS long): the symbols afterwards, with
/// the corrected data symbols in the first 20 slots, and the 15 bytes, or
/// `None` (symbols unchanged) where the errors cannot be corrected.
#[verifier::opaque]
pub open spec fn header_symbols_decoding(s: Seq<u8>) -> (Seq<u8>, Option<Seq<u8>>) {
    match rs_decode_word(s, 16, 20) {
        None => (s, None),
        Some((data, _)) => (data + s.subrange(20, 36), Some(packed_bytes(data, 15))),
    }
}

/// Header decoding reads its bytes from the corrected symbols: when it
/// succeeds, the 15 bytes are the packing of the first 20 symbols it leaves
/// behind (the Reed-Solomon corrected data), and the parity symbols are
/// left as received.
pub proof fn lemma_header_bytes_corrected(s: Seq<u8>)
    requires
        s.len() == 36,
    ensures
        header_symbols_decoding(s).0.len() == 36,
        header_symbols_decoding(s).0.subrange(20, 36) == s.subrange(20, 36),
        header_symbols_decoding(s).1 matches Some(b) ==> b == packed_bytes(header_symbols_decoding(s).0, 15),
        rs_decode_word(s, 16, 20) matches Some((d, _)) ==> header_symbols_decoding(s).0.subrange(0, 20) == d
            && header_symbols_decoding(s).1 == Some(packed_bytes(d, 15)),
        rs_decode_word(s, 16, 20) is None ==> header_symbols_decoding(s) == (s, None::<Seq<u8>>),
{
    reveal(header_symbols_decoding);
    crate::p25::voice::frame_group::lemma_written_back(s, 16, 20, 15);
    if let Some((d, _)) = rs_decode_word(s, 16, 20) {
        assert((d + s.subrange(20, 36)).subrange(20, 36) =~= s.subrange(20, 36));
        assert((d + s.subrange(20, 36)).subrange(0, 20) =~= d);
    }
}

/// A header sent without errors decodes to the packing of its data
/// symbols, and is left unchanged.
pub proof fn lemma_header_encoded(d: Seq<u8>)
    requires
        d.len() == 36,
        reed_solomon::symbols_fit(d),
    ensures
        ({
            let w = reed_solomon::systematic_word(d, reed_solomon::long::generator(), 20);
            header_symbols_decoding(w) == (w, Some(packed_bytes(d, 15)))
        }),
{
    let w = reed_solomon::systematic_word(d, reed_solomon::long::generator(), 20);
    reveal(header_symbols_decoding);
    reed_solomon::long::lemma_encode_roundtrip(d);
    assert(w.subrange(0, 20) + w.subrange(20, 36) =~= w);
    assert(w.subrange(0, 20) =~= d.subrange(0, 20));
    assert(d.subrange(0, 20).subrange(0, 20) =~= d.subrange(0, 20));
    crate::p25::voice::frame_group::lemma_packed_prefix(d.subrange(0, 20), d, 15, 20);
}

/// The collector after a completed word, before any Reed-Solomon
/// decoding: the word's symbol stored in the next slot, while slots remain.
pub open spec fn header_stored(e: SymbolCollector, w: nat) -> SymbolCollector {
    if e.count < 36 {
        SymbolCollector {
            symbols: e.symbols.update(e.count as int, header_symbol(w as u32) % 64),
            count: e.count + 1,
            word: 0,
            word_dibits: 0,
        }
    } else {
        SymbolCollector { word: 0, word_dibits: 0, ..e }
    }
}

/// The receiver state after one more dibit.
pub open spec fn header_next(e: SymbolCollector, d: Dibit) -> SymbolCollector {
    let w = (e.word * 4 + d@) as nat;
    if e.word_dibits + 1 < 9 {
        SymbolCollector { word: w, word_dibits: e.word_dibits + 1, ..e }
    } else {
        let stored = header_stored(e, w);
        if stored.count >= 36 {
            SymbolCollector { symbols: header_symbols_decoding(stored.symbols).0, ..stored }
        } else {
            stored
        }
    }
}

/// What the receiver reports for one more dibit: once a word completes
/// the 36 symbols, the header fields or the Reed-Solomon error; nothing
/// otherwise.
pub open spec fn header_event(e: SymbolCollector, d: Dibit, r: Option<Result<VoiceHeaderFields, P25Error>>) -> bool {
    let w = (e.word * 4 + d@) as nat;
    if e.word_dibits + 1 >= 9 && header_stored(e, w).count >= 36 {
        match header_symbols_decoding(header_stored(e, w).symbols).1 {
            None => r == Some(Err::<VoiceHeaderFields, P25Error>(P25Error::RsLongUnrecoverable)),
            Some(b) => r matches Some(Ok(h)) && h@ == b,
        }
    } else {
        r is None
    }
}

/// The invariant of a header receiver's state.
pub open spec fn header_wf(e: SymbolCollector) -> bool {
    e.count <= 36 && e.word_dibits < 9 && e.word < pow4(e.word_dibits)
}

/// Streaming receiver for voice header (HDU) data units.
///
/// Feed dibits one at a time. After every 9 dibits, decodes a
/// Golay-shortened word to one hexbit. After all 36 hexbits,
/// RS long decodes to the 15-byte header.
pub struct VoiceHeaderReceiver {
    /// Accumulated hexbits from decoded Golay words.
    hexbits: [Hexbit; 36],
    /// Number of hexbits collected so far.
    hexbit_count: usize,
    /// Dibit accumulator for the current 9-dibit word.
    word_accumulator: u32,
    /// Number of dibits in the current word.
    word_dibit_count: usize,
}

impl View for VoiceHeaderReceiver {
    type V = SymbolCollector;

    closed spec fn view(&self) -> SymbolCollector {
        SymbolCollector {
            symbols: hexbit_values(self.hexbits@),
            count: self.hexbit_count as nat,
            word: self.word_accumulator as nat,
            word_dibits: self.word_dibit_count as nat,
        }
    }
}

/// Decode 36 symbols as a voice header (RS long): on success the corrected
/// data symbols replace the first 20.
#[verifier::rlimit(40)]
fn decode_header_symbols(hexbits: &mut [Hexbit; 36]) -> (r: Result<VoiceHeaderFields, P25Error>)
    ensures
        hexbit_values(final(hexbits)@) == header_symbols_decoding(hexbit_values(old(hexbits)@)).0,
        match header_symbols_decoding(hexbit_values(old(hexbits)@)).1 {
            None => r == Err::<VoiceHeaderFields, P25Error>(P25Error::RsLongUnrecoverable),
            Some(bytes) => r matches Ok(h) && h@ == bytes,
        },
        r matches Ok(h) ==> h@ == packed_bytes(hexbit_values(final(hexbits)@), 15),
{
    proof {
        lemma_header_bytes_corrected(hexbit_values(old(hexbits)@));
        reveal(header_symbols_decoding);
    }
    match reed_solomon::long::decode(hexbits) {
        Some((data, _errors)) => {
            let b = pack_bytes(data.as_slice(), 15);
            let bytes = [
                b[0], b[1], b[2], b[3], b[4], b[5], b[6], b[7], b[8], b[9], b[10], b[11], b[12], b[13], b[14],
            ];
            assert(bytes@ =~= b@);
            Ok(VoiceHeaderFields::new(bytes))
        },
        None => Err(P25Error::RsLongUnrecoverable),
    }
}

impl VoiceHeaderReceiver {
    /// Create a new receiver in its initial state.
    pub fn new() -> (r: Self)
        ensures
            r@ == (SymbolCollector { symbols: Seq::new(36, |i: int| 0u8), count: 0, word: 0, word_dibits: 0 }),
    {
        let r = Self { hexbits: [Hexbit::new(0); 36], hexbit_count: 0, word_accumulator: 0, word_dibit_count: 0 };
        assert(r@.symbols =~= Seq::new(36, |i: int| 0u8));
        r
    }

    /// Whether all 36 hexbits have been received and decoded.
    pub fn is_done(&self) -> (r: bool)
        ensures
            r == (self@.count >= 36),
    {
        self.hexbit_count >= 36
    }

    /// Feed one dibit. Returns `Some(Ok(fields))` when the header is
    /// complete, `Some(Err(_))` on RS decode failure, or `None` when
    /// more dibits are needed.
    pub fn feed(&mut self, dibit: Dibit) -> (r: Option<Result<VoiceHeaderFields, P25Error>>)
        requires
            header_wf(old(self)@),
        ensures
            header_wf(final(self)@),
            final(self)@ == header_next(old(self)@, dibit),
            header_event(old(self)@, dibit, r),
    {
        proof {
            reveal_with_fuel(pow4, 10);
        }
        let ghost w = (self.word_accumulator * 4 + dibit@) as nat;
        self.word_accumulator = self.word_accumulator * 4 + dibit.bits() as u32;
        self.word_dibit_count += 1;

        if self.word_dibit_count < 9 {
            return None;
        }

        // Complete 9-dibit (18-bit) word -- decode via shortened Golay.
        let word = self.word_accumulator;
        proof {
            assert(word < 0x4_0000);
            assert(word >> 18u32 == 0) by (bit_vector)
                requires
                    word < 0x4_0000,
            ;
        }
        self.word_accumulator = 0;
        self.word_dibit_count = 0;

        let hexbit_value = match golay::shortened::decode(word) {
            Some((data, _errors)) => data,
            // Let the Reed-Solomon stage attempt to fix this; store 0.
            None => 0,
        };

        if self.hexbit_count < 36 {
            self.hexbits[self.hexbit_count] = Hexbit::new(hexbit_value);
            self.hexbit_count += 1;
            assert(self@.symbols =~= old(self)@.symbols.update(old(self)@.count as int, header_symbol(w as u32) % 64));
        }

        if self.hexbit_count < 36 {
            return None;
        }

        // All 36 hexbits collected -- RS long decode.
        Some(decode_header_symbols(&mut self.hexbits))
    }
}

/// The state of a fresh receiver.
pub open spec fn header_start() -> SymbolCollector {
    SymbolCollector { symbols: Seq::new(36, |i: int| 0u8), count: 0, word: 0, word_dibits: 0 }
}

/// The state after feeding the dibits `ds`, one by one, to a fresh
/// receiver.
pub open spec fn header_after(ds: Seq<Dibit>) -> SymbolCollector
    decreases ds.len(),
{
    if ds.len() == 0 {
        header_start()
    } else {
        header_next(header_after(ds.drop_last()), ds.last())
    }
}

/// After `n` dibits (at most 324) a fresh receiver holds n / 9 symbols and
/// n mod 9 dibits of the next word.
pub proof fn lemma_header_after(ds: Seq<Dibit>)
    requires
        ds.len() <= 324,
    ensures
        header_after(ds).count == ds.len() / 9,
        header_after(ds).word_dibits == ds.len() % 9,
    decreases ds.len(),
{
    if ds.len() > 0 {
        let prev = ds.drop_last();
        lemma_header_after(prev);
        let n = prev.len();
        if n % 9 < 8 {
            assert((n + 1) / 9 == n / 9 && (n + 1) % 9 == n % 9 + 1);
        } else {
            assert((n + 1) / 9 == n / 9 + 1 && (n + 1) % 9 == 0);
        }
    }
}

/// A header takes exactly 324 dibits: feeding a fresh receiver, the first
/// 323 dibits report nothing and leave it not done; the 324th reports the
/// header (or its Reed-Solomon failure) and leaves it done.
pub proof fn lemma_header_feeds(ds: Seq<Dibit>, d: Dibit, r: Option<Result<VoiceHeaderFields, P25Error>>)
    requires
        ds.len() < 324,
        header_event(header_after(ds), d, r),
    ensures
        r is Some <==> ds.len() == 323,
        r is Some ==> (r matches Some(Ok(_)) || r == Some(Err::<VoiceHeaderFields, P25Error>(P25Error::RsLongUnrecoverable))),
        header_after(ds.push(d)) == header_next(header_after(ds), d),
        (header_after(ds.push(d)).count >= 36) <==> ds.len() == 323,
{
    lemma_header_after(ds);
    assert(ds.push(d).drop_last() =~= ds);
    lemma_header_after(ds.push(d));
}

} // verus!

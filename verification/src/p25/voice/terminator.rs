//! Voice LC terminator (TDULC) receiver for P25.
//!
//! The TDULC ends a voice transmission, carrying Link Control data.
//! Structure (after NID):
//! - 12 Golay-extended(24,12,8) words of 12 dibits each = 144 dibits
//! - Each word decodes to 12 data bits = 2 hexbits (high 6, low 6)
//! - 24 hexbits -> RS short(24,12,13) -> 12 data hexbits -> 9 bytes LC

use vstd::prelude::*;
use crate::p25::coding::golay;
use crate::p25::error::P25Error;
use crate::p25::types::{Dibit, Hexbit};
use crate::p25::voice::control::LinkControlFields;
use crate::p25::voice::frame_group::{
    decode_link_control_symbols, lc_decoding, pow4, SymbolCollector,
};

verus! {

broadcast use crate::p25::types::lemma_dibit_bound;

/// The 12 data bits carried by a 24-bit terminator word: its extended
/// Golay decoding, or zero where that fails (the Reed-Solomon stage
/// repairs it).
pub open spec fn terminator_data(word: u32) -> u16 {
    match golay::extended::spec_decode(word) {
        Some((data, _)) => data,
        None => 0,
    }
}

/// The collector after storing `v` in the next slot, while slots remain.
pub open spec fn store_symbol(e: SymbolCollector, v: u8) -> SymbolCollector {
    if e.count < 24 {
        SymbolCollector { symbols: e.symbols.update(e.count as int, v), count: e.count + 1, ..e }
    } else {
        e
    }
}

/// The collector after a completed word, before any Reed-Solomon decoding:
/// the high then the low six data bits stored as two symbols.
pub open spec fn terminator_stored(e: SymbolCollector, w: nat) -> SymbolCollector {
    let data = terminator_data(w as u32);
    let hi = ((data >> 6u16) as u8) % 64;
    let lo = (data % 64) as u8;
    let reset = SymbolCollector { word: 0, word_dibits: 0, ..e };
    store_symbol(store_symbol(reset, hi), lo)
}

/// The receiver state after one more dibit.
pub open spec fn terminator_next(e: SymbolCollector, d: Dibit) -> SymbolCollector {
    let w = (e.word * 4 + d@) as nat;
    if e.word_dibits + 1 < 12 {
        SymbolCollector { word: w, word_dibits: e.word_dibits + 1, ..e }
    } else {
        let stored = terminator_stored(e, w);
        if stored.count >= 24 {
            lc_decoding(stored).0
        } else {
            stored
        }
    }
}

/// What the receiver reports for one more dibit: once a word completes
/// the 24 symbols, the Link Control word or the Reed-Solomon error;
/// nothing otherwise.
pub open spec fn terminator_event(
    e: SymbolCollector,
    d: Dibit,
    r: Option<Result<LinkControlFields, P25Error>>,
) -> bool {
    let w = (e.word * 4 + d@) as nat;
    if e.word_dibits + 1 >= 12 && terminator_stored(e, w).count >= 24 {
        match lc_decoding(terminator_stored(e, w)).1 {
            None => r == Some(Err::<LinkControlFields, P25Error>(P25Error::RsShortUnrecoverable)),
            Some(b) => r matches Some(Ok(lc)) && lc@ == b,
        }
    } else {
        r is None
    }
}

/// The invariant of a terminator receiver's state.
pub open spec fn terminator_wf(e: SymbolCollector) -> bool {
    e.count <= 24 && e.word_dibits < 12 && e.word < pow4(e.word_dibits)
}

/// Streaming receiver for voice LC terminator (TDULC) data units.
///
/// Feed dibits one at a time. After every 12 dibits, decodes a
/// Golay-extended word to 12 data bits (2 hexbits). After all 12 words
/// (24 hexbits), RS short decodes to the 9-byte Link Control payload.
pub struct VoiceLcTerminatorReceiver {
    /// Accumulated hexbits from decoded Golay words.
    hexbits: [Hexbit; 24],
    /// Number of hexbits collected so far.
    hexbit_count: usize,
    /// Dibit accumulator for the current 12-dibit word.
    word_accumulator: u32,
    /// Number of dibits in the current word.
    word_dibit_count: usize,
}

impl View for VoiceLcTerminatorReceiver {
    type V = SymbolCollector;

    closed spec fn view(&self) -> SymbolCollector {
        SymbolCollector {
            symbols: crate::p25::coding::reed_solomon::hexbit_values(self.hexbits@),
            count: self.hexbit_count as nat,
            word: self.word_accumulator as nat,
            word_dibits: self.word_dibit_count as nat,
        }
    }
}

impl VoiceLcTerminatorReceiver {
    /// Create a new receiver in its initial state.
    pub fn new() -> (r: Self)
        ensures
            r@ == (SymbolCollector { symbols: Seq::new(24, |i: int| 0u8), count: 0, word: 0, word_dibits: 0 }),
    {
        let r = Self { hexbits: [Hexbit::new(0); 24], hexbit_count: 0, word_accumulator: 0, word_dibit_count: 0 };
        assert(r@.symbols =~= Seq::new(24, |i: int| 0u8));
        r
    }

    /// Whether all 24 hexbits have been received.
    pub fn is_done(&self) -> (r: bool)
        ensures
            r == (self@.count >= 24),
    {
        self.hexbit_count >= 24
    }

    /// Store one symbol in the next slot, while slots remain.
    fn store(&mut self, value: u8)
        ensures
            final(self)@ == store_symbol(old(self)@, value % 64),
    {
        if self.hexbit_count < 24 {
            self.hexbits[self.hexbit_count] = Hexbit::new(value);
            self.hexbit_count += 1;
            assert(self@.symbols =~= old(self)@.symbols.update(old(self)@.count as int, value % 64));
        }
    }

    /// Feed one dibit. Returns `Some(Ok(lc))` when the terminator is
    /// complete, `Some(Err(_))` on RS decode failure, or `None` when
    /// more dibits are needed.
    pub fn feed(&mut self, dibit: Dibit) -> (r: Option<Result<LinkControlFields, P25Error>>)
        requires
            terminator_wf(old(self)@),
        ensures
            terminator_wf(final(self)@),
            final(self)@ == terminator_next(old(self)@, dibit),
            terminator_event(old(self)@, dibit, r),
    {
        proof {
            reveal_with_fuel(pow4, 13);
        }
        let ghost w = (self.word_accumulator * 4 + dibit@) as nat;
        self.word_accumulator = self.word_accumulator * 4 + dibit.bits() as u32;
        self.word_dibit_count += 1;

        if self.word_dibit_count < 12 {
            return None;
        }

        // Complete 12-dibit (24-bit) word -- decode via extended Golay.
        let word = self.word_accumulator;
        proof {
            assert(word < 0x100_0000);
            crate::p25::bitwise::lemma_mask_u32(word);
            assert(word >> 24u32 == 0) by (bit_vector)
                requires
                    word < 0x100_0000,
            ;
        }
        self.word_accumulator = 0;
        self.word_dibit_count = 0;

        let data = match golay::extended::decode(word) {
            Some((data, _errors)) => data,
            // Let the Reed-Solomon stage attempt to fix this; store 0.
            None => 0,
        };

        // Each 12-bit result splits into 2 hexbits (high 6, low 6).
        proof {
            crate::p25::bitwise::lemma_mask_u16(data);
            crate::p25::bitwise::lemma_mask_u8(data as u8);
            assert((data & 0x3F) as u8 == (data % 64) as u8) by (bit_vector);
        }
        self.store((data >> 6) as u8);
        self.store((data & 0x3F) as u8);

        if self.hexbit_count < 24 {
            return None;
        }

        // All 24 hexbits collected -- RS short decode.
        Some(decode_link_control_symbols(&mut self.hexbits))
    }
}

} // verus!

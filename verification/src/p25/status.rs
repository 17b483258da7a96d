//! Status symbol deinterleaving for P25 transmitted streams.
//!
//! P25 inserts a status symbol every 35 data symbols (one status period = 36 dibits).
//! The frame sync (24 symbols) counts toward the first status period, so the first
//! status symbol appears 12 symbols after sync.

use vstd::prelude::*;
use crate::p25::consts::{DIBITS_PER_STATUS_UPDATE, SYNC_SYMBOLS};
use crate::p25::types::Dibit;

verus! {

/// Status symbol values transmitted by P25 repeaters and subscribers.
#[derive(Debug, Clone, Copy, PartialEq, Eq)]
pub enum StatusCode {
    /// Subscriber transmitting directly to another subscriber (0b00).
    SubscriberDirect,
    /// Inbound channel is busy (0b01).
    InboundBusy,
    /// Subscriber transmitting to a repeater (0b10).
    SubscriberRepeater,
    /// Inbound channel is idle (0b11).
    InboundIdle,
}

/// The status code carried by a dibit value.
pub open spec fn status_of(v: u8) -> StatusCode {
    if v == 0 {
        StatusCode::SubscriberDirect
    } else if v == 1 {
        StatusCode::InboundBusy
    } else if v == 2 {
        StatusCode::SubscriberRepeater
    } else {
        StatusCode::InboundIdle
    }
}

/// The dibit value of a status code.
pub open spec fn status_bits(c: StatusCode) -> u8 {
    match c {
        StatusCode::SubscriberDirect => 0,
        StatusCode::InboundBusy => 1,
        StatusCode::SubscriberRepeater => 2,
        StatusCode::InboundIdle => 3,
    }
}

impl StatusCode {
    /// Parse a status code from a dibit value.
    pub fn from_dibit(dibit: Dibit) -> (r: Self)
        ensures
            r == status_of(dibit@),
    {
        match dibit.bits() {
            0b00 => Self::SubscriberDirect,
            0b01 => Self::InboundBusy,
            0b10 => Self::SubscriberRepeater,
            _ => Self::InboundIdle,
        }
    }

    /// Convert to the dibit representation.
    pub fn to_dibit(self) -> (r: Dibit)
        ensures
            r@ == status_bits(self),
    {
        Dibit::new(
            match self {
                Self::SubscriberDirect => 0b00,
                Self::InboundBusy => 0b01,
                Self::SubscriberRepeater => 0b10,
                Self::InboundIdle => 0b11,
            },
        )
    }
}

/// Every dibit value names a status code that converts back to it.
pub proof fn lemma_status_roundtrip(d: Dibit)
    ensures
        status_bits(status_of(d@)) == d@,
{
    crate::p25::types::lemma_dibit_bound(d);
}

/// A classified symbol from the P25 stream.
#[derive(Debug, Clone, Copy, PartialEq, Eq)]
pub enum StreamSymbol {
    /// A status symbol (to be discarded for data decoding).
    Status(StatusCode),
    /// A data symbol (to be passed to decoders).
    Data(Dibit),
}

/// Separates status symbols from data symbols in a P25 stream.
///
/// Must be initialized immediately after frame sync detection.
/// The sync pattern's 24 symbols count toward the first status period.
#[derive(Debug, Clone, Copy)]
pub struct StatusDeinterleaver {
    /// Current position within the status period.
    position: usize,
}

impl View for StatusDeinterleaver {
    type V = nat;

    /// The position within the 36-dibit status period.
    closed spec fn view(&self) -> nat {
        self.position as nat
    }
}

impl Default for StatusDeinterleaver {
    fn default() -> (r: Self)
        ensures
            r@ == 24,
    {
        Self::new()
    }
}

impl StatusDeinterleaver {
    /// The position stays within one status period.
    pub closed spec fn wf(&self) -> bool {
        self.position < 36
    }

    /// The invariant is that the position is within one status period.
    pub proof fn lemma_wf(&self)
        ensures
            self.wf() <==> self@ < 36,
    {
    }

    /// Create a new deinterleaver positioned after frame sync.
    pub fn new() -> (r: Self)
        ensures
            r.wf(),
            r@ == 24,
    {
        Self { position: SYNC_SYMBOLS }
    }

    /// Classify the given dibit as a status or data symbol: the dibit that
    /// completes a status period is a status symbol.
    pub fn feed(&mut self, dibit: Dibit) -> (r: StreamSymbol)
        requires
            old(self).wf(),
        ensures
            final(self).wf(),
            final(self)@ == (old(self)@ + 1) % 36,
            final(self)@ == 0 ==> r == StreamSymbol::Status(status_of(dibit@)),
            final(self)@ != 0 ==> r == StreamSymbol::Data(dibit),
    {
        self.position += 1;
        self.position %= DIBITS_PER_STATUS_UPDATE;

        if self.position == 0 {
            StreamSymbol::Status(StatusCode::from_dibit(dibit))
        } else {
            StreamSymbol::Data(dibit)
        }
    }
}

/// After `n` dibits following frame sync, the deinterleaver sits at
/// position (24 + n) mod 36, so the status symbols are the 12th dibit after
/// sync and every 36th dibit from there on.
pub proof fn lemma_status_positions(n: nat)
    ensures
        (24 + n) % 36 == 0 <==> n % 36 == 12,
{
    assert((24 + n) % 36 == (n + 24) % 36);
    if n % 36 == 12 {
        assert(n == 36 * (n / 36) + 12);
        assert((24 + n) == 36 * (n / 36 + 1));
        vstd::arithmetic::div_mod::lemma_mod_multiples_basic((n / 36 + 1) as int, 36);
    }
    if (24 + n) % 36 == 0 {
        assert(24 + n == 36 * ((24 + n) / 36));
    }
}

/// The position after `n` calls of `feed` on a fresh deinterleaver, by the
/// contract of `feed` applied `n` times from `new`.
pub open spec fn position_after(n: nat) -> nat
    decreases n,
{
    if n == 0 {
        24
    } else {
        (position_after((n - 1) as nat) + 1) % 36
    }
}

/// The `n`-th call of `feed` after `new()` (counting from 1) leaves the
/// deinterleaver at (24 + n) mod 36, and so returns a status symbol exactly
/// when n mod 36 is 12.
pub proof fn lemma_feed_after_new(n: nat)
    ensures
        position_after(n) == (24 + n) % 36,
        n >= 1 ==> (position_after(n) == 0 <==> n % 36 == 12),
    decreases n,
{
    if n > 0 {
        lemma_feed_after_new((n - 1) as nat);
        vstd::arithmetic::div_mod::lemma_add_mod_noop((24 + n - 1) as int, 1, 36);
        vstd::arithmetic::div_mod::lemma_mod_twice(1, 36);
        lemma_status_positions(n);
    }
}

} // verus!

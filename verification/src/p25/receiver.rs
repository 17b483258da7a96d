//! Data unit receiver state machine.
//!
//! Consumes data dibits (after status symbol removal) and decodes
//! P25 data units: TSDU (trunking signaling), LDU1/LDU2 (voice),
//! and terminator frames.

use vstd::prelude::*;
use crate::p25::crc::spec_crc16;
use crate::p25::error::P25Error;
use crate::p25::interleave::{self, deinterleave_source};
use crate::p25::nid::{self, data_unit_bits, nid_decoded, DataUnit, NetworkId, NidIntegrityPolicy};
use crate::p25::trellis::{self, dibit_values, viterbi_decode};
use crate::p25::tsbk::{self, be16, tsbk_matches, Tsbk};
use crate::p25::types::Dibit;
use crate::p25::voice::control::LinkControlFields;
use crate::p25::voice::crypto::CryptoControlFields;
use crate::p25::voice::frame::VoiceFrame;
use crate::p25::voice::frame_group::{
    frame_group_event, frame_group_next, frame_group_start, frame_group_wf, FrameGroupEvent,
    FrameGroupModel, FrameGroupReceiver, FrameGroupType, Phase, SymbolCollector,
};
use crate::p25::voice::header::{header_event, header_next, header_wf, VoiceHeaderFields, VoiceHeaderReceiver};
use crate::p25::voice::terminator::{
    terminator_event, terminator_next, terminator_wf, VoiceLcTerminatorReceiver,
};

verus! {

/// Events produced by the data unit receiver.
#[derive(Debug)]
pub enum ReceiverEvent {
    /// A NID was successfully decoded.
    Nid(NetworkId),
    /// A TSBK was successfully decoded and CRC-verified.
    Tsbk(Tsbk),
    /// A decoded IMBE voice frame.
    VoiceFrame(VoiceFrame),
    /// A decoded Link Control word (from LDU1).
    LinkControl(LinkControlFields),
    /// A decoded Crypto Control word (from LDU2).
    CryptoControl(CryptoControlFields),
    /// A decoded voice header (from HDU).
    VoiceHeader(VoiceHeaderFields),
    /// A 16-bit low-speed data fragment from a voice frame group.
    DataFragment(u16),
    /// A decode error occurred (reported, not fatal).
    Error(P25Error),
}

/// State of the data unit receiver.
#[derive(Debug, Clone, Copy, PartialEq, Eq)]
pub enum State {
    /// Collecting NID dibits after frame sync.
    CollectNid,
    /// Collecting coded TSBK dibits (98 per block).
    CollectTsbk,
    /// Decoding an LDU1 (link control) frame group.
    DecodeLcFrameGroup,
    /// Decoding an LDU2 (crypto control) frame group.
    DecodeCcFrameGroup,
    /// Decoding a voice header (HDU).
    DecodeHeader,
    /// Decoding a voice LC terminator (TDULC).
    DecodeLcTerminator,
    /// Skipping the rest of the data unit until the next sync.
    Skip,
}

/// The state of a data unit receiver.
pub struct ReceiverModel {
    /// Decoding stage.
    pub state: State,
    /// Dibits collected in the current buffered stage.
    pub buffer: Seq<Dibit>,
    /// Number of dibits the buffered stage collects.
    pub target: nat,
    /// The NID of the current data unit.
    pub current_nid: Option<NetworkId>,
    /// The frame group receiver of an LDU.
    pub frame_group: Option<FrameGroupModel>,
    /// The voice header receiver of an HDU.
    pub header: Option<SymbolCollector>,
    /// The terminator receiver of a TDULC.
    pub terminator: Option<SymbolCollector>,
    /// Policy for NIDs that fail their integrity check.
    pub policy: NidIntegrityPolicy,
}

/// A fresh collector of `n` symbols.
pub open spec fn collector_start(n: nat) -> SymbolCollector {
    SymbolCollector { symbols: Seq::new(n, |i: int| 0u8), count: 0, word: 0, word_dibits: 0 }
}

/// The state of a fresh receiver, and of one after a reset.
pub open spec fn receiver_start(policy: NidIntegrityPolicy) -> ReceiverModel {
    ReceiverModel {
        state: State::CollectNid,
        buffer: Seq::empty(),
        target: 32,
        current_nid: None,
        frame_group: None,
        header: None,
        terminator: None,
        policy,
    }
}

/// The state after dispatching on the data unit type: a TSDU collects
/// 98-dibit TSBK blocks, LDU1 and LDU2 start a frame group receiver, an
/// HDU a header receiver, a TDULC a terminator receiver, and any other
/// data unit is skipped.
pub open spec fn route_model(m: ReceiverModel, du: DataUnit) -> ReceiverModel {
    match du {
        DataUnit::TrunkingSignaling => ReceiverModel { state: State::CollectTsbk, target: 98, ..m },
        DataUnit::VoiceLcFrameGroup => ReceiverModel {
            frame_group: Some(frame_group_start(FrameGroupType::LinkControl)),
            state: State::DecodeLcFrameGroup,
            ..m
        },
        DataUnit::VoiceCcFrameGroup => ReceiverModel {
            frame_group: Some(frame_group_start(FrameGroupType::CryptoControl)),
            state: State::DecodeCcFrameGroup,
            ..m
        },
        DataUnit::VoiceHeader => ReceiverModel {
            header: Some(collector_start(36)),
            state: State::DecodeHeader,
            ..m
        },
        DataUnit::VoiceLcTerminator => ReceiverModel {
            terminator: Some(collector_start(24)),
            state: State::DecodeLcTerminator,
            ..m
        },
        _ => ReceiverModel { state: State::Skip, ..m },
    }
}

/// The error reported for a NID that the strict policy rejects.
pub open spec fn nid_rejection(nid: NetworkId) -> P25Error {
    P25Error::NidRejected {
        reason: "parity check failed",
        nac: nid.access_code@,
        duid: data_unit_bits(nid.data_unit),
    }
}

/// The outcome of a decoded NID: an error skips the data unit; a NID that
/// failed its integrity check is rejected under the strict policy;
/// otherwise the NID is reported and the data unit dispatched.
pub open spec fn nid_outcome(
    m: ReceiverModel,
    res: Result<NetworkId, P25Error>,
    m2: ReceiverModel,
    r: Option<ReceiverEvent>,
) -> bool {
    let cleared = ReceiverModel { buffer: Seq::empty(), ..m };
    match res {
        Err(e) => r == Some(ReceiverEvent::Error(e)) && m2 == ReceiverModel { state: State::Skip, ..cleared },
        Ok(nid) => if !nid.parity_ok && m.policy == NidIntegrityPolicy::Strict {
            r == Some(ReceiverEvent::Error(nid_rejection(nid))) && m2 == ReceiverModel {
                state: State::Skip,
                ..cleared
            }
        } else {
            r == Some(ReceiverEvent::Nid(nid)) && m2 == route_model(
                ReceiverModel { current_nid: Some(nid), ..cleared },
                nid.data_unit,
            )
        },
    }
}

/// The 12 bytes carried by 98 coded dibits in transmission order:
/// deinterleaved, trellis decoded to 48 dibits, and packed four dibits to
/// a byte, first dibit most significant.
pub open spec fn tsbk_bytes(coded: Seq<Dibit>) -> Seq<u8> {
    let restored = Seq::new(98, |o: int| coded[deinterleave_source(o as nat) as int]);
    let v = viterbi_decode(dibit_values(restored));
    Seq::new(12, |i: int| (v[4 * i] * 64 + v[4 * i + 1] * 16 + v[4 * i + 2] * 4 + v[4 * i + 3]) as u8)
}

/// The outcome of a complete coded TSBK block: a CRC mismatch is reported
/// and skips the data unit; a valid block is reported, and the receiver
/// collects another block unless it is the last one.
pub open spec fn tsbk_outcome(
    m: ReceiverModel,
    coded: Seq<Dibit>,
    m2: ReceiverModel,
    r: Option<ReceiverEvent>,
) -> bool {
    let bytes = tsbk_bytes(coded);
    let computed = spec_crc16(bytes.subrange(0, 10));
    let stored = be16(bytes, 10);
    let cleared = ReceiverModel { buffer: Seq::empty(), ..m };
    if computed != stored {
        &&& r == Some(
            ReceiverEvent::Error(P25Error::CrcMismatch { expected: stored as u16, actual: computed }),
        )
        &&& m2 == ReceiverModel { state: State::Skip, ..cleared }
    } else {
        r matches Some(ReceiverEvent::Tsbk(t)) && tsbk_matches(t, bytes) && m2 == (if t.header.last_block {
            ReceiverModel { state: State::Skip, ..cleared }
        } else {
            cleared
        })
    }
}

/// A frame group event as a receiver event.
pub open spec fn from_group_event(ev: Option<FrameGroupEvent>) -> Option<ReceiverEvent> {
    match ev {
        None => None,
        Some(FrameGroupEvent::VoiceFrame(v)) => Some(ReceiverEvent::VoiceFrame(v)),
        Some(FrameGroupEvent::LinkControl(lc)) => Some(ReceiverEvent::LinkControl(lc)),
        Some(FrameGroupEvent::CryptoControl(cc)) => Some(ReceiverEvent::CryptoControl(cc)),
        Some(FrameGroupEvent::DataFragment(v)) => Some(ReceiverEvent::DataFragment(v)),
        Some(FrameGroupEvent::Error(e)) => Some(ReceiverEvent::Error(e)),
    }
}

/// The frame group event that a receiver event stands for.
pub open spec fn to_group_event(r: Option<ReceiverEvent>) -> Option<FrameGroupEvent> {
    match r {
        Some(ReceiverEvent::VoiceFrame(v)) => Some(FrameGroupEvent::VoiceFrame(v)),
        Some(ReceiverEvent::LinkControl(lc)) => Some(FrameGroupEvent::LinkControl(lc)),
        Some(ReceiverEvent::CryptoControl(cc)) => Some(FrameGroupEvent::CryptoControl(cc)),
        Some(ReceiverEvent::DataFragment(v)) => Some(FrameGroupEvent::DataFragment(v)),
        Some(ReceiverEvent::Error(e)) => Some(FrameGroupEvent::Error(e)),
        _ => None,
    }
}

/// A header receiver result as a receiver event.
pub open spec fn from_header_result(res: Option<Result<VoiceHeaderFields, P25Error>>) -> Option<ReceiverEvent> {
    match res {
        None => None,
        Some(Ok(h)) => Some(ReceiverEvent::VoiceHeader(h)),
        Some(Err(e)) => Some(ReceiverEvent::Error(e)),
    }
}

/// The header receiver result that a receiver event stands for.
pub open spec fn to_header_result(r: Option<ReceiverEvent>) -> Option<Result<VoiceHeaderFields, P25Error>> {
    match r {
        Some(ReceiverEvent::VoiceHeader(h)) => Some(Ok(h)),
        Some(ReceiverEvent::Error(e)) => Some(Err(e)),
        _ => None,
    }
}

/// A terminator receiver result as a receiver event.
pub open spec fn from_terminator_result(res: Option<Result<LinkControlFields, P25Error>>) -> Option<ReceiverEvent> {
    match res {
        None => None,
        Some(Ok(lc)) => Some(ReceiverEvent::LinkControl(lc)),
        Some(Err(e)) => Some(ReceiverEvent::Error(e)),
    }
}

/// The terminator receiver result that a receiver event stands for.
pub open spec fn to_terminator_result(r: Option<ReceiverEvent>) -> Option<Result<LinkControlFields, P25Error>> {
    match r {
        Some(ReceiverEvent::LinkControl(lc)) => Some(Ok(lc)),
        Some(ReceiverEvent::Error(e)) => Some(Err(e)),
        _ => None,
    }
}

/// One step of the receiver: from state `m`, the dibit `d` leads to state
/// `m2` with event `r`.
///
/// The voice stages hand the dibit to their sub-receiver and report what
/// it reports, skipping the rest of the data unit once the sub-receiver
/// has finished. The other stages collect dibits up to the target; a
/// complete NID or TSBK block is then decoded, and a skipped data unit's
/// dibits are discarded.
pub open spec fn receiver_step(m: ReceiverModel, d: Dibit, m2: ReceiverModel, r: Option<ReceiverEvent>) -> bool {
    match m.state {
        State::DecodeLcFrameGroup | State::DecodeCcFrameGroup => match m.frame_group {
            None => m2 == ReceiverModel { state: State::Skip, ..m } && r is None,
            Some(fg) => {
                let ev = to_group_event(r);
                let fg2 = frame_group_next(fg, d);
                &&& frame_group_event(fg, d, ev)
                &&& r == from_group_event(ev)
                &&& m2 == if ev is Some && fg2.phase == Phase::Done {
                    ReceiverModel { state: State::Skip, frame_group: None, ..m }
                } else {
                    ReceiverModel { frame_group: Some(fg2), ..m }
                }
            },
        },
        State::DecodeHeader => match m.header {
            None => m2 == ReceiverModel { state: State::Skip, ..m } && r is None,
            Some(h) => {
                let res = to_header_result(r);
                let h2 = header_next(h, d);
                &&& header_event(h, d, res)
                &&& r == from_header_result(res)
                &&& m2 == if res is Some && h2.count >= 36 {
                    ReceiverModel { state: State::Skip, header: None, ..m }
                } else {
                    ReceiverModel { header: Some(h2), ..m }
                }
            },
        },
        State::DecodeLcTerminator => match m.terminator {
            None => m2 == ReceiverModel { state: State::Skip, ..m } && r is None,
            Some(t) => {
                let res = to_terminator_result(r);
                let t2 = terminator_next(t, d);
                &&& terminator_event(t, d, res)
                &&& r == from_terminator_result(res)
                &&& m2 == if res is Some && t2.count >= 24 {
                    ReceiverModel { state: State::Skip, terminator: None, ..m }
                } else {
                    ReceiverModel { terminator: Some(t2), ..m }
                }
            },
        },
        _ => {
            let buf = m.buffer.push(d);
            if buf.len() < m.target {
                m2 == ReceiverModel { buffer: buf, ..m } && r is None
            } else {
                match m.state {
                    State::CollectNid => exists|res: Result<NetworkId, P25Error>|
                        nid_decoded(buf, res) && #[trigger] nid_outcome(m, res, m2, r),
                    State::CollectTsbk => tsbk_outcome(m, buf, m2, r),
                    _ => m2 == ReceiverModel { buffer: Seq::empty(), ..m } && r is None,
                }
            }
        },
    }
}

/// The invariant of a receiver's state.
pub open spec fn receiver_wf(m: ReceiverModel) -> bool {
    &&& m.target == 32 || m.target == 98
    &&& m.buffer.len() < m.target
    &&& m.state == State::CollectNid ==> m.target == 32
    &&& m.state == State::CollectTsbk ==> m.target == 98
    &&& (m.frame_group matches Some(fg) ==> frame_group_wf(fg))
    &&& (m.header matches Some(h) ==> header_wf(h))
    &&& (m.terminator matches Some(t) ==> terminator_wf(t))
}

/// Receives data dibits and decodes P25 data units.
///
/// After frame sync is detected externally, the caller feeds data
/// dibits (with status symbols already removed) into this receiver.
/// It collects the NID, dispatches based on DUID, and decodes TSDU
/// (trunking signaling), LDU1/LDU2 (voice), and terminator data units.
pub struct DataUnitReceiver {
    state: State,
    /// Buffer for accumulating dibits in the current phase.
    buffer: Vec<Dibit>,
    /// Target number of dibits to collect in the current phase.
    target: usize,
    /// The NID from the current data unit.
    current_nid: Option<NetworkId>,
    /// Frame group receiver for LDU1/LDU2 voice data units.
    frame_group: Option<FrameGroupReceiver>,
    /// Voice header receiver for HDU data units.
    header_receiver: Option<VoiceHeaderReceiver>,
    /// Voice LC terminator receiver for TDULC data units.
    terminator_receiver: Option<VoiceLcTerminatorReceiver>,
    /// Policy for accepting/rejecting NIDs with failed integrity checks.
    integrity_policy: NidIntegrityPolicy,
}

/// The model of an optional frame group receiver.
pub open spec fn frame_group_view(fg: Option<FrameGroupReceiver>) -> Option<FrameGroupModel> {
    match fg {
        Some(f) => Some(f@),
        None => None,
    }
}

/// The model of an optional header receiver.
pub open spec fn header_view(h: Option<VoiceHeaderReceiver>) -> Option<SymbolCollector> {
    match h {
        Some(x) => Some(x@),
        None => None,
    }
}

/// The model of an optional terminator receiver.
pub open spec fn terminator_view(t: Option<VoiceLcTerminatorReceiver>) -> Option<SymbolCollector> {
    match t {
        Some(x) => Some(x@),
        None => None,
    }
}

impl View for DataUnitReceiver {
    type V = ReceiverModel;

    closed spec fn view(&self) -> ReceiverModel {
        ReceiverModel {
            state: self.state,
            buffer: self.buffer@,
            target: self.target as nat,
            current_nid: self.current_nid,
            frame_group: frame_group_view(self.frame_group),
            header: header_view(self.header_receiver),
            terminator: terminator_view(self.terminator_receiver),
            policy: self.integrity_policy,
        }
    }
}

impl DataUnitReceiver {
    /// The receiver's invariant.
    pub closed spec fn wf(&self) -> bool {
        &&& receiver_wf(self@)
        &&& (self.frame_group matches Some(fg) ==> fg.wf())
    }

    /// The receiver's invariant covers the invariant of its state.
    pub proof fn lemma_wf(&self)
        requires
            self.wf(),
        ensures
            receiver_wf(self@),
    {
    }

    /// Create a new receiver with the given NID integrity policy.
    pub fn new(integrity_policy: NidIntegrityPolicy) -> (r: Self)
        ensures
            r.wf(),
            r@ == receiver_start(integrity_policy),
    {
        Self {
            state: State::CollectNid,
            buffer: Vec::new(),
            target: 32,
            current_nid: None,
            frame_group: None,
            header_receiver: None,
            terminator_receiver: None,
            integrity_policy,
        }
    }

    /// Reset the receiver to await a new NID after frame sync.
    pub fn reset(&mut self)
        ensures
            final(self).wf(),
            final(self)@ == receiver_start(old(self)@.policy),
    {
        self.state = State::CollectNid;
        self.buffer.clear();
        self.target = 32;
        self.current_nid = None;
        self.frame_group = None;
        self.header_receiver = None;
        self.terminator_receiver = None;
    }

    /// The current decoding stage.
    pub fn state(&self) -> (r: State)
        ensures
            r == self@.state,
    {
        self.state
    }

    /// Whether a frame group receiver is active.
    pub fn has_frame_group(&self) -> (r: bool)
        ensures
            r == self@.frame_group is Some,
    {
        self.frame_group.is_some()
    }

    /// Whether a voice header receiver is active.
    pub fn has_header_receiver(&self) -> (r: bool)
        ensures
            r == self@.header is Some,
    {
        self.header_receiver.is_some()
    }

    /// Whether a voice LC terminator receiver is active.
    pub fn has_terminator_receiver(&self) -> (r: bool)
        ensures
            r == self@.terminator is Some,
    {
        self.terminator_receiver.is_some()
    }

    /// The NID of the current data unit, once one is accepted.
    pub fn current_nid(&self) -> (r: Option<NetworkId>)
        ensures
            r == self@.current_nid,
    {
        self.current_nid
    }

    /// Whether the receiver has finished processing the current data unit.
    ///
    /// Returns `true` when the receiver is in the skip state: after the
    /// last TSBK has been decoded, after a frame group, header or
    /// terminator is complete, or after a data unit that is not decoded.
    pub fn is_done(&self) -> (r: bool)
        ensures
            r == (self@.state == State::Skip),
    {
        match self.state {
            State::Skip => true,
            _ => false,
        }
    }

    /// Feed one data dibit into the receiver.
    ///
    /// Returns an event when a NID, TSBK, voice frame, or other
    /// component is decoded. Returns `None` when more dibits are needed.
    pub fn feed(&mut self, dibit: Dibit) -> (r: Option<ReceiverEvent>)
        requires
            old(self).wf(),
        ensures
            final(self).wf(),
            receiver_step(old(self)@, dibit, final(self)@, r),
    {
        // Streaming states bypass the buffer and feed the sub-receiver.
        match self.state {
            State::DecodeLcFrameGroup | State::DecodeCcFrameGroup => {
                return self.feed_frame_group(dibit);
            },
            State::DecodeHeader => {
                return self.feed_header(dibit);
            },
            State::DecodeLcTerminator => {
                return self.feed_terminator(dibit);
            },
            _ => {},
        }

        self.buffer.push(dibit);
        let ghost pushed = self@;

        if self.buffer.len() < self.target {
            return None;
        }

        match self.state {
            State::CollectNid => {
                let r = self.process_nid();
                proof {
                    let res = choose|res: Result<NetworkId, P25Error>|
                        nid_decoded(pushed.buffer, res) && #[trigger] nid_outcome(pushed, res, self@, r);
                    assert(nid_outcome(old(self)@, res, self@, r));
                }
                r
            },
            State::CollectTsbk => self.process_tsbk(),
            _ => {
                // Discard dibits until externally reset.
                self.buffer.clear();
                None
            },
        }
    }

    /// Process a complete NID.
    fn process_nid(&mut self) -> (r: Option<ReceiverEvent>)
        requires
            old(self).wf_buffered(),
            old(self)@.state == State::CollectNid,
            old(self)@.buffer.len() == 32,
        ensures
            final(self).wf(),
            exists|res: Result<NetworkId, P25Error>|
                nid_decoded(old(self)@.buffer, res) && #[trigger] nid_outcome(old(self)@, res, final(self)@, r),
    {
        let mut dibits: Vec<Dibit> = Vec::new();
        std::mem::swap(&mut dibits, &mut self.buffer);
        let res = nid::decode_nid(dibits.as_slice());
        proof {
            assert(nid_decoded(old(self)@.buffer, res));
            assert(nid_outcome(old(self)@, res, self@, None) == nid_outcome(old(self)@, res, self@, None));
        }
        let ghost res_copy = res;
        let r = match res {
            Ok(nid) => {
                let rejection = self.check_nid_integrity(&nid);
                if rejection.is_some() {
                    proof {
                        assert(nid_outcome(old(self)@, res_copy, self@, rejection));
                    }
                    return rejection;
                }
                self.current_nid = Some(nid);
                self.route_data_unit(nid.data_unit);
                Some(ReceiverEvent::Nid(nid))
            },
            Err(err) => {
                self.state = State::Skip;
                Some(ReceiverEvent::Error(err))
            },
        };
        proof {
            assert(nid_outcome(old(self)@, res_copy, self@, r));
        }
        r
    }

    /// The invariant, with the buffer allowed to have reached its target.
    closed spec fn wf_buffered(&self) -> bool {
        &&& self.target == 32 || self.target == 98
        &&& self.buffer@.len() <= self.target
        &&& self.state == State::CollectNid ==> self.target == 32
        &&& self.state == State::CollectTsbk ==> self.target == 98
        &&& (self@.frame_group matches Some(fg) ==> frame_group_wf(fg))
        &&& (self@.header matches Some(h) ==> header_wf(h))
        &&& (self@.terminator matches Some(t) ==> terminator_wf(t))
        &&& (self.frame_group matches Some(fg) ==> fg.wf())
    }

    /// Check NID integrity: the rejection event under the strict policy
    /// for a NID that failed its check (the data unit is then skipped), or
    /// `None` with the receiver unchanged.
    fn check_nid_integrity(&mut self, nid: &NetworkId) -> (r: Option<ReceiverEvent>)
        ensures
            if !nid.parity_ok && old(self)@.policy == NidIntegrityPolicy::Strict {
                &&& r == Some(ReceiverEvent::Error(nid_rejection(*nid)))
                &&& final(self)@ == ReceiverModel { state: State::Skip, ..old(self)@ }
                &&& final(self).frame_group == old(self).frame_group
            } else {
                r is None && *final(self) == *old(self)
            },
    {
        if nid.parity_ok {
            return None;
        }
        match self.integrity_policy {
            NidIntegrityPolicy::Strict => {
                self.state = State::Skip;
                Some(
                    ReceiverEvent::Error(
                        P25Error::NidRejected {
                            reason: "parity check failed",
                            nac: nid.access_code.value(),
                            duid: nid.data_unit.to_bits(),
                        },
                    ),
                )
            },
            NidIntegrityPolicy::Permissive => None,
        }
    }

    /// Transition receiver state based on the data unit type.
    fn route_data_unit(&mut self, data_unit: DataUnit)
        requires
            old(self).wf_buffered(),
            old(self)@.buffer.len() == 0,
            old(self).target == 32,
        ensures
            final(self)@ == route_model(old(self)@, data_unit),
            final(self).wf(),
    {
        match data_unit {
            DataUnit::TrunkingSignaling => {
                self.state = State::CollectTsbk;
                self.target = 98;
            },
            DataUnit::VoiceLcFrameGroup => {
                self.frame_group = Some(FrameGroupReceiver::new(FrameGroupType::LinkControl));
                self.state = State::DecodeLcFrameGroup;
            },
            DataUnit::VoiceCcFrameGroup => {
                self.frame_group = Some(FrameGroupReceiver::new(FrameGroupType::CryptoControl));
                self.state = State::DecodeCcFrameGroup;
            },
            DataUnit::VoiceHeader => {
                self.header_receiver = Some(VoiceHeaderReceiver::new());
                self.state = State::DecodeHeader;
            },
            DataUnit::VoiceLcTerminator => {
                self.terminator_receiver = Some(VoiceLcTerminatorReceiver::new());
                self.state = State::DecodeLcTerminator;
            },
            _ => {
                self.state = State::Skip;
            },
        }
    }
}

impl DataUnitReceiver {
    /// Process a complete set of 98 coded TSBK dibits.
    fn process_tsbk(&mut self) -> (r: Option<ReceiverEvent>)
        requires
            old(self).wf_buffered(),
            old(self)@.state == State::CollectTsbk,
            old(self)@.buffer.len() == 98,
        ensures
            final(self).wf(),
            tsbk_outcome(old(self)@, old(self)@.buffer, final(self)@, r),
    {
        let mut coded: Vec<Dibit> = Vec::new();
        std::mem::swap(&mut coded, &mut self.buffer);

        // Deinterleave the 98 coded dibits.
        let restored = interleave::deinterleave(coded.as_slice());

        // Trellis decode: 98 coded dibits -> 48 data dibits.
        assert(restored@.len() == 98);
        let decoded = match trellis::decode(restored.as_slice()) {
            Ok(d) => d,
            Err(err) => {
                self.state = State::Skip;
                return Some(ReceiverEvent::Error(err));
            },
        };

        // Convert 48 dibits to 12 bytes.
        assert(dibit_values(decoded@).len() == decoded@.len());
        assert(decoded@.len() == 48);
        let bytes = match tsbk::dibits_to_bytes(decoded.as_slice()) {
            Ok(b) => b,
            Err(err) => {
                self.state = State::Skip;
                return Some(ReceiverEvent::Error(err));
            },
        };
        proof {
            let ghost restored_spec = Seq::new(98, |o: int| coded@[deinterleave_source(o as nat) as int]);
            assert(restored@ =~= restored_spec);
            let v = viterbi_decode(dibit_values(restored_spec));
            assert forall|i: int| 0 <= i < 12 implies #[trigger] bytes@[i] == tsbk_bytes(coded@)[i] by {
                assert(dibit_values(decoded@)[4 * i] == decoded@[4 * i]@);
                assert(dibit_values(decoded@)[4 * i + 1] == decoded@[4 * i + 1]@);
                assert(dibit_values(decoded@)[4 * i + 2] == decoded@[4 * i + 2]@);
                assert(dibit_values(decoded@)[4 * i + 3] == decoded@[4 * i + 3]@);
            }
            assert(bytes@ =~= tsbk_bytes(coded@));
        }

        // Parse and CRC-verify the TSBK.
        match tsbk::parse(&bytes) {
            Ok(tsbk_msg) => {
                if tsbk_msg.header.last_block {
                    // Last block: done with this data unit.
                    self.state = State::Skip;
                }
                // If not last, stay in CollectTsbk to read another block.
                Some(ReceiverEvent::Tsbk(tsbk_msg))
            },
            Err(err) => {
                self.state = State::Skip;
                Some(ReceiverEvent::Error(err))
            },
        }
    }

    /// Feed a dibit into the active frame group receiver and translate
    /// frame group events into receiver events.
    fn feed_frame_group(&mut self, dibit: Dibit) -> (r: Option<ReceiverEvent>)
        requires
            old(self).wf(),
            old(self)@.state == State::DecodeLcFrameGroup || old(self)@.state == State::DecodeCcFrameGroup,
        ensures
            final(self).wf(),
            receiver_step(old(self)@, dibit, final(self)@, r),
    {
        let mut taken: Option<FrameGroupReceiver> = None;
        std::mem::swap(&mut taken, &mut self.frame_group);
        let mut fg = match taken {
            Some(fg) => fg,
            None => {
                self.state = State::Skip;
                return None;
            },
        };

        proof {
            fg.lemma_wf();
        }
        let event = match fg.feed(dibit) {
            Some(e) => e,
            None => {
                proof {
                    fg.lemma_wf();
                }
                self.frame_group = Some(fg);
                return None;
            },
        };

        proof {
            fg.lemma_wf();
        }
        // The frame group is finished after this event: skip the rest.
        if fg.is_done() {
            self.state = State::Skip;
        } else {
            self.frame_group = Some(fg);
        }

        // Translate frame group events to receiver events.
        Some(
            match event {
                FrameGroupEvent::VoiceFrame(vf) => ReceiverEvent::VoiceFrame(vf),
                FrameGroupEvent::LinkControl(lc) => ReceiverEvent::LinkControl(lc),
                FrameGroupEvent::CryptoControl(cc) => ReceiverEvent::CryptoControl(cc),
                FrameGroupEvent::DataFragment(frag) => ReceiverEvent::DataFragment(frag),
                FrameGroupEvent::Error(err) => ReceiverEvent::Error(err),
            },
        )
    }

    /// Feed a dibit into the active voice header receiver.
    fn feed_header(&mut self, dibit: Dibit) -> (r: Option<ReceiverEvent>)
        requires
            old(self).wf(),
            old(self)@.state == State::DecodeHeader,
        ensures
            final(self).wf(),
            receiver_step(old(self)@, dibit, final(self)@, r),
    {
        let mut taken: Option<VoiceHeaderReceiver> = None;
        std::mem::swap(&mut taken, &mut self.header_receiver);
        let mut recv = match taken {
            Some(h) => h,
            None => {
                self.state = State::Skip;
                return None;
            },
        };

        let result = match recv.feed(dibit) {
            Some(res) => res,
            None => {
                self.header_receiver = Some(recv);
                return None;
            },
        };

        if recv.is_done() {
            self.state = State::Skip;
        } else {
            self.header_receiver = Some(recv);
        }

        Some(
            match result {
                Ok(fields) => ReceiverEvent::VoiceHeader(fields),
                Err(err) => ReceiverEvent::Error(err),
            },
        )
    }

    /// Feed a dibit into the active voice LC terminator receiver.
    fn feed_terminator(&mut self, dibit: Dibit) -> (r: Option<ReceiverEvent>)
        requires
            old(self).wf(),
            old(self)@.state == State::DecodeLcTerminator,
        ensures
            final(self).wf(),
            receiver_step(old(self)@, dibit, final(self)@, r),
    {
        let mut taken: Option<VoiceLcTerminatorReceiver> = None;
        std::mem::swap(&mut taken, &mut self.terminator_receiver);
        let mut recv = match taken {
            Some(t) => t,
            None => {
                self.state = State::Skip;
                return None;
            },
        };

        let result = match recv.feed(dibit) {
            Some(res) => res,
            None => {
                self.terminator_receiver = Some(recv);
                return None;
            },
        };

        if recv.is_done() {
            self.state = State::Skip;
        } else {
            self.terminator_receiver = Some(recv);
        }

        Some(
            match result {
                Ok(lc) => ReceiverEvent::LinkControl(lc),
                Err(err) => ReceiverEvent::Error(err),
            },
        )
    }
}

impl Default for DataUnitReceiver {
    /// A receiver with the strict NID integrity policy.
    fn default() -> (r: Self)
        ensures
            r.wf(),
            r@ == receiver_start(NidIntegrityPolicy::Strict),
    {
        Self::new(NidIntegrityPolicy::Strict)
    }
}

/// A receiver that skips the rest of a data unit stays skipping and
/// reports nothing, whatever it is fed, until it is reset.
pub proof fn lemma_skip_absorbing(m: ReceiverModel, d: Dibit, m2: ReceiverModel, r: Option<ReceiverEvent>)
    requires
        receiver_wf(m),
        m.state == State::Skip,
        receiver_step(m, d, m2, r),
    ensures
        r is None,
        m2.state == State::Skip,
        m2.policy == m.policy,
{
}

/// Under the strict policy a NID that failed its integrity check is never
/// reported as a NID: the data unit is skipped with a rejection.
pub proof fn lemma_strict_rejects(m: ReceiverModel, res: Result<NetworkId, P25Error>, m2: ReceiverModel, r: Option<ReceiverEvent>)
    requires
        m.policy == NidIntegrityPolicy::Strict,
        res matches Ok(nid) && !nid.parity_ok,
        nid_outcome(m, res, m2, r),
    ensures
        m2.state == State::Skip,
        r matches Some(ReceiverEvent::Error(P25Error::NidRejected { .. })),
{
}

/// The NID the receiver decodes from its 32 collected dibits agrees with
/// what `decode_nid` gives for them; under the strict policy, a NID that
/// `decode_nid` marks as failing its integrity check is rejected.
pub proof fn lemma_nid_matches_decode(
    m: ReceiverModel,
    d: Dibit,
    m2: ReceiverModel,
    r: Option<ReceiverEvent>,
    decoded: Result<NetworkId, P25Error>,
)
    requires
        receiver_wf(m),
        m.state == State::CollectNid,
        m.buffer.len() == 31,
        receiver_step(m, d, m2, r),
        nid_decoded(m.buffer.push(d), decoded),
    ensures
        exists|res: Result<NetworkId, P25Error>|
            #![trigger nid_outcome(m, res, m2, r)]
            nid_outcome(m, res, m2, r) && (res matches Ok(a) && (decoded matches Ok(b) && a.parity_ok
                == b.parity_ok && a.access_code@ == b.access_code@ && a.data_unit == b.data_unit)),
        m.policy == NidIntegrityPolicy::Strict ==> ((decoded matches Ok(n) && !n.parity_ok) ==> (m2.state
            == State::Skip && r matches Some(ReceiverEvent::Error(P25Error::NidRejected { .. })))),
{
    let buf = m.buffer.push(d);
    let res = choose|res: Result<NetworkId, P25Error>| nid_decoded(buf, res) && #[trigger] nid_outcome(m, res, m2, r);
    nid::lemma_nid_decoded_unique(buf, res, decoded);
    if m.policy == NidIntegrityPolicy::Strict {
        if let Ok(n) = decoded {
            if !n.parity_ok {
                lemma_strict_rejects(m, res, m2, r);
            }
        }
    }
}

/// While collecting a TSBK block, the first `k` (at most 97) steps from an
/// empty buffer only gather the dibits.
proof fn lemma_tsbk_gathering(ms: Seq<ReceiverModel>, ds: Seq<Dibit>, rs: Seq<Option<ReceiverEvent>>, k: nat)
    requires
        k <= 97,
        ds.len() == 98,
        ms.len() == 99,
        rs.len() == 98,
        ms[0].state == State::CollectTsbk,
        ms[0].buffer.len() == 0,
        receiver_wf(ms[0]),
        forall|i: int| 0 <= i < 98 ==> #[trigger] receiver_step(ms[i], ds[i], ms[i + 1], rs[i]),
    ensures
        ms[k as int].state == State::CollectTsbk,
        ms[k as int].target == 98,
        ms[k as int].buffer == ds.take(k as int),
        forall|i: int| 0 <= i < k ==> #[trigger] rs[i] is None,
    decreases k,
{
    if k > 0 {
        let j = (k - 1) as int;
        lemma_tsbk_gathering(ms, ds, rs, (k - 1) as nat);
        assert(receiver_step(ms[j], ds[j], ms[j + 1], rs[j]));
        assert(ds.take(j).push(ds[j]) =~= ds.take(k as int));
    } else {
        assert(ds.take(0) =~= Seq::<Dibit>::empty());
    }
}

/// A TSBK block takes exactly 98 dibits: from the start of a block, the
/// receiver reports nothing for the first 97 and decodes the 98 dibits
/// as a block on the last.
pub proof fn lemma_tsbk_block(ms: Seq<ReceiverModel>, ds: Seq<Dibit>, rs: Seq<Option<ReceiverEvent>>)
    requires
        ds.len() == 98,
        ms.len() == 99,
        rs.len() == 98,
        ms[0].state == State::CollectTsbk,
        ms[0].buffer.len() == 0,
        receiver_wf(ms[0]),
        forall|i: int| 0 <= i < 98 ==> #[trigger] receiver_step(ms[i], ds[i], ms[i + 1], rs[i]),
    ensures
        forall|i: int| 0 <= i < 97 ==> #[trigger] rs[i] is None,
        tsbk_outcome(ms[97], ds, ms[98], rs[97]),
{
    lemma_tsbk_gathering(ms, ds, rs, 97);
    assert(receiver_step(ms[97], ds[97], ms[98], rs[97]));
    assert(ds.take(97).push(ds[97]) =~= ds);
}

/// While collecting a NID, the first `k` (at most 31) steps from an empty
/// buffer only gather the dibits.
proof fn lemma_nid_gathering(ms: Seq<ReceiverModel>, ds: Seq<Dibit>, rs: Seq<Option<ReceiverEvent>>, k: nat)
    requires
        k <= 31,
        ds.len() == 32,
        ms.len() == 33,
        rs.len() == 32,
        ms[0].state == State::CollectNid,
        ms[0].buffer.len() == 0,
        receiver_wf(ms[0]),
        forall|i: int| 0 <= i < 32 ==> #[trigger] receiver_step(ms[i], ds[i], ms[i + 1], rs[i]),
    ensures
        ms[k as int].state == State::CollectNid,
        ms[k as int].target == 32,
        ms[k as int].policy == ms[0].policy,
        receiver_wf(ms[k as int]),
        ms[k as int].buffer == ds.take(k as int),
        forall|i: int| 0 <= i < k ==> #[trigger] rs[i] is None,
    decreases k,
{
    if k > 0 {
        let j = (k - 1) as int;
        lemma_nid_gathering(ms, ds, rs, (k - 1) as nat);
        assert(receiver_step(ms[j], ds[j], ms[j + 1], rs[j]));
        assert(ds.take(j).push(ds[j]) =~= ds.take(k as int));
    } else {
        assert(ds.take(0) =~= Seq::<Dibit>::empty());
    }
}

/// A NID takes exactly 32 dibits: from the start of a data unit (a fresh
/// or reset receiver), the receiver reports nothing for the first 31 and,
/// on the 32nd, the outcome of the NID that `decode_nid` gives for the 32
/// dibits; under the strict policy a NID failing its integrity check is
/// rejected and the data unit skipped.
pub proof fn lemma_nid_block(
    ms: Seq<ReceiverModel>,
    ds: Seq<Dibit>,
    rs: Seq<Option<ReceiverEvent>>,
    decoded: Result<NetworkId, P25Error>,
)
    requires
        ds.len() == 32,
        ms.len() == 33,
        rs.len() == 32,
        ms[0].state == State::CollectNid,
        ms[0].buffer.len() == 0,
        receiver_wf(ms[0]),
        forall|i: int| 0 <= i < 32 ==> #[trigger] receiver_step(ms[i], ds[i], ms[i + 1], rs[i]),
        nid_decoded(ds, decoded),
    ensures
        forall|i: int| 0 <= i < 31 ==> #[trigger] rs[i] is None,
        exists|res: Result<NetworkId, P25Error>|
            #![trigger nid_outcome(ms[31], res, ms[32], rs[31])]
            nid_outcome(ms[31], res, ms[32], rs[31]) && (res matches Ok(a) && (decoded matches Ok(b)
                && a.parity_ok == b.parity_ok && a.access_code@ == b.access_code@ && a.data_unit
                == b.data_unit)),
        ms[0].policy == NidIntegrityPolicy::Strict ==> ((decoded matches Ok(n) && !n.parity_ok) ==> (
        ms[32].state == State::Skip && rs[31] matches Some(ReceiverEvent::Error(P25Error::NidRejected { .. })))),
        decoded matches Ok(n) ==> (!n.parity_ok && ms[0].policy == NidIntegrityPolicy::Strict ==> rs[31]
            == Some(ReceiverEvent::Error(nid_rejection(n)))),
        decoded matches Ok(n) ==> ((n.parity_ok || ms[0].policy != NidIntegrityPolicy::Strict) ==> (
        rs[31] matches Some(ReceiverEvent::Nid(a)) && a.access_code@ == n.access_code@ && a.data_unit
            == n.data_unit && a.parity_ok == n.parity_ok && ms[32].state == route_model(
            ms[31],
            n.data_unit,
        ).state)),
{
    lemma_nid_gathering(ms, ds, rs, 31);
    assert(receiver_step(ms[31], ds[31], ms[32], rs[31]));
    assert(ds.take(31).push(ds[31]) =~= ds);
    lemma_nid_matches_decode(ms[31], ds[31], ms[32], rs[31], decoded);
    let res = choose|res: Result<NetworkId, P25Error>|
        #![trigger nid_outcome(ms[31], res, ms[32], rs[31])]
        nid_outcome(ms[31], res, ms[32], rs[31]) && (res matches Ok(a) && (decoded matches Ok(b)
            && a.parity_ok == b.parity_ok && a.access_code@ == b.access_code@ && a.data_unit
            == b.data_unit));
    assert(nid_outcome(ms[31], res, ms[32], rs[31]));
}

/// The 48 data dibits of 12 bytes, four to a byte, most significant first.
pub open spec fn byte_dibits(b: Seq<u8>) -> Seq<u8> {
    Seq::new(
        48,
        |k: int|
            {
                let x = b[k / 4];
                (if k % 4 == 0 {
                    x / 64
                } else if k % 4 == 1 {
                    (x / 16) % 4
                } else if k % 4 == 2 {
                    (x / 4) % 4
                } else {
                    x % 4
                }) as u8
            },
    )
}

/// The 98 dibit values sent for a TSBK of 12 bytes: the trellis encoding
/// of its dibits and a flushing 0, interleaved.
pub open spec fn tsbk_transmission(b: Seq<u8>) -> Seq<u8> {
    Seq::new(
        98,
        |i: int| trellis::encode_seq(0, byte_dibits(b).push(0))[interleave::interleave_source(i as nat) as int],
    )
}

/// The bytes read from a transmitted TSBK block are the bytes sent, also
/// when one bit of one dibit (`m` of 1 or 2; 0 for none) was flipped on
/// the way.
pub proof fn lemma_tsbk_bytes_sent(b: Seq<u8>, sent: Seq<Dibit>, j: nat, m: u8)
    requires
        b.len() == 12,
        sent.len() == 98,
        j < 98,
        m == 0 || m == 1 || m == 2,
        forall|i: int| 0 <= i < 98 ==> #[trigger] sent[i]@ == if i == j {
            tsbk_transmission(b)[i] ^ m
        } else {
            tsbk_transmission(b)[i]
        },
    ensures
        tsbk_bytes(sent) == b,
{
    let data = byte_dibits(b);
    assert forall|k: int| 0 <= k < 48 implies #[trigger] data[k] < 4 by {
        let x = b[k / 4];
        assert(x / 64 < 4);
    }
    let input = data.push(0);
    let rx = trellis::encode_seq(0, input);
    trellis::lemma_encode_seq(0, input);
    let jj = interleave::interleave_source(j);
    interleave::lemma_interleave_inverse(j);
    let restored = Seq::new(98, |o: int| sent[deinterleave_source(o as nat) as int]);
    let expected = rx.update(jj as int, rx[jj as int] ^ m);
    assert forall|o: int| 0 <= o < 98 implies #[trigger] dibit_values(restored)[o] == expected[o] by {
        interleave::lemma_interleave_inverse(o as nat);
        let src = deinterleave_source(o as nat);
        assert(restored[o] == sent[src as int]);
        assert(interleave::interleave_source(src) == o);
        if src == j {
            assert(o == jj);
        } else {
            interleave::lemma_interleave_inverse(jj);
            assert(o != jj);
        }
    }
    assert(dibit_values(restored) =~= expected);
    trellis::lemma_single_error(data, jj, m);
    let v = viterbi_decode(dibit_values(restored));
    assert(v == data);
    assert forall|i: int| 0 <= i < 12 implies #[trigger] tsbk_bytes(sent)[i] == b[i] by {
        let x = b[i];
        assert(v[4 * i] == x / 64);
        assert(v[4 * i + 1] == (x / 16) % 4);
        assert(v[4 * i + 2] == (x / 4) % 4);
        assert(v[4 * i + 3] == x % 4);
        assert((x / 64) * 64 + ((x / 16) % 4) * 16 + ((x / 4) % 4) * 4 + x % 4 == x);
    }
    assert(tsbk_bytes(sent) =~= b);
}

/// What the receiver reports for a transmitted TSBK block of 12 bytes, with
/// at most one flipped bit: nothing for the first 97 dibits, and on the
/// 98th the outcome of checking and parsing exactly the bytes sent (a CRC
/// mismatch, or the TSBK and whether the data unit goes on).
pub proof fn lemma_tsbk_block_sent(
    ms: Seq<ReceiverModel>,
    ds: Seq<Dibit>,
    rs: Seq<Option<ReceiverEvent>>,
    b: Seq<u8>,
    j: nat,
    m: u8,
)
    requires
        ds.len() == 98,
        ms.len() == 99,
        rs.len() == 98,
        ms[0].state == State::CollectTsbk,
        ms[0].buffer.len() == 0,
        receiver_wf(ms[0]),
        forall|i: int| 0 <= i < 98 ==> #[trigger] receiver_step(ms[i], ds[i], ms[i + 1], rs[i]),
        b.len() == 12,
        j < 98,
        m == 0 || m == 1 || m == 2,
        forall|i: int| 0 <= i < 98 ==> #[trigger] ds[i]@ == if i == j {
            tsbk_transmission(b)[i] ^ m
        } else {
            tsbk_transmission(b)[i]
        },
    ensures
        forall|i: int| 0 <= i < 97 ==> #[trigger] rs[i] is None,
        tsbk_bytes(ds) == b,
        tsbk_outcome(ms[97], ds, ms[98], rs[97]),
{
    lemma_tsbk_block(ms, ds, rs);
    lemma_tsbk_bytes_sent(b, ds, j, m);
}

} // verus!

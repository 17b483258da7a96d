//! Per-channel protocol decode pipeline.
//!
//! Plans the decimation chain from the input sample rate down to the
//! 24 kHz channel rate, and carries the protocol side of a channel:
//! status deinterleaving and data unit decoding of demodulated symbols,
//! frame sync handling and the sync timeout that triggers re-acquisition.
//! The signal processing itself (filters and demodulators) runs outside
//! this module and reports samples, sync detections and symbols here.

use vstd::prelude::*;
use vstd::string::StringExecFns;
use crate::p25::nid::NidIntegrityPolicy;
use crate::p25::receiver::{receiver_start, receiver_step, receiver_wf, DataUnitReceiver, ReceiverEvent, ReceiverModel, State};
use crate::p25::status::{StatusDeinterleaver, StreamSymbol};
use crate::p25::text::{decimal, push_decimal};
use crate::p25::types::{Dibit, Nac};

verus! {

/// Target IF rate after all decimation: 24 kHz (5 samples/symbol at 4800 baud).
pub const CHANNEL_RATE: u32 = 24_000;

/// Default sync timeout for control channel pipelines, in post-decimation
/// samples (one second at the 24 kHz channel rate).
///
/// The timeout counts post-decimation samples (not symbols) so that it fires
/// even when the demodulator is unlocked and stops producing symbol events.
pub const CC_SYNC_TIMEOUT_SAMPLES: u32 = 24_000;

/// Maximum decimation factor per stage. Kept at 10 to preserve CQPSK
/// phase fidelity — stages larger than 10x create filters whose narrow
/// normalized cutoff distorts phase, preventing the Costas loop from locking.
pub const MAX_STAGE_FACTOR: usize = 10;

/// Error type for decimation configuration.
#[derive(Debug, Clone, Copy, PartialEq, Eq)]
pub enum DecimationError {
    /// Sample rate is not an integer multiple of the target rate.
    NotDivisible {
        /// The invalid sample rate.
        sample_rate: u32,
        /// The target rate that must divide evenly.
        target_rate: u32,
        /// Nearest valid rate below.
        nearest_lower: u32,
        /// Nearest valid rate above.
        nearest_higher: u32,
    },
    /// Total decimation factor cannot be split into stages of the preferred
    /// factors.
    NoValidFactoring {
        /// The unfactorable total decimation.
        total: usize,
    },
}

/// The message of a decimation error.
pub open spec fn decimation_error_text(e: DecimationError) -> Seq<char> {
    match e {
        DecimationError::NotDivisible { sample_rate, target_rate, nearest_lower, nearest_higher } =>
            "sample rate "@ + decimal(sample_rate as nat) + " Hz is not a multiple of "@ + decimal(
            target_rate as nat,
        ) + "; try "@ + decimal(nearest_lower as nat) + " or "@ + decimal(nearest_higher as nat),
        DecimationError::NoValidFactoring { total } => "cannot factor total decimation "@ + decimal(
            total as nat,
        ) + "x into stages of 25x or less"@,
    }
}

impl DecimationError {
    /// The error's message.
    pub fn to_string(&self) -> (r: String)
        ensures
            r@ == decimation_error_text(*self),
    {
        match self {
            DecimationError::NotDivisible { sample_rate, target_rate, nearest_lower, nearest_higher } => {
                let mut s = String::from_str("sample rate ");
                push_decimal(&mut s, *sample_rate as u64);
                s.append(" Hz is not a multiple of ");
                push_decimal(&mut s, *target_rate as u64);
                s.append("; try ");
                push_decimal(&mut s, *nearest_lower as u64);
                s.append(" or ");
                push_decimal(&mut s, *nearest_higher as u64);
                s
            },
            DecimationError::NoValidFactoring { total } => {
                let mut s = String::from_str("cannot factor total decimation ");
                push_decimal(&mut s, *total as u64);
                s.append("x into stages of 25x or less");
                s
            },
        }
    }
}

/// Preferred stage factors, in order of preference (largest first).
pub open spec fn preferred_factor(i: nat) -> nat {
    seq![10nat, 8, 5, 4, 3, 2][i as int]
}

/// The stage factors of a total decimation: a single stage when it is at
/// most 10, otherwise the first preferred factor that divides it and whose
/// quotient factors in turn, followed by that quotient's factors.
pub open spec fn stage_factors(total: nat) -> Option<Seq<nat>>
    decreases total, 7nat,
{
    if total <= 10 {
        Some(seq![total])
    } else {
        factors_from(total, 0)
    }
}

/// The factoring of `total` that tries the preferred factors from index `i`.
pub open spec fn factors_from(total: nat, i: nat) -> Option<Seq<nat>>
    decreases total, 6 - i,
{
    if i >= 6 || total <= 10 {
        None
    } else {
        let f = preferred_factor(i);
        if total % f == 0 {
            proof {
                assert(total / f < total) by (nonlinear_arith)
                    requires
                        f >= 2,
                        total > 10,
                ;
            }
            match stage_factors(total / f) {
                Some(later) => Some(seq![f] + later),
                None => factors_from(total, i + 1),
            }
        } else {
            factors_from(total, i + 1)
        }
    }
}

/// The product of a sequence of factors.
pub open spec fn product(s: Seq<nat>) -> nat
    decreases s.len(),
{
    if s.len() == 0 {
        1
    } else {
        s[0] * product(s.drop_first())
    }
}

/// Every factoring found multiplies back to the total, with each factor
/// between 1 and 10.
pub proof fn lemma_stage_factors(total: nat)
    requires
        total >= 1,
    ensures
        stage_factors(total) matches Some(fs) ==> product(fs) == total && fs.len() >= 1 && forall|k: int|
            0 <= k < fs.len() ==> 1 <= #[trigger] fs[k] <= 10,
    decreases total, 7nat,
{
    if total <= 10 {
        reveal_with_fuel(product, 2);
        assert(seq![total].drop_first() =~= Seq::<nat>::empty());
    } else {
        lemma_factors_from(total, 0);
    }
}

/// The factorings tried from index `i` multiply back to the total.
pub proof fn lemma_factors_from(total: nat, i: nat)
    requires
        total >= 1,
    ensures
        factors_from(total, i) matches Some(fs) ==> product(fs) == total && fs.len() >= 1 && forall|k: int|
            0 <= k < fs.len() ==> 1 <= #[trigger] fs[k] <= 10,
    decreases total, 6 - i,
{
    if i < 6 && total > 10 {
        let f = preferred_factor(i);
        if total % f == 0 {
            assert(total / f < total && total / f >= 1) by (nonlinear_arith)
                requires
                    f >= 2,
                    total > 10,
                    total % f == 0,
            ;
            lemma_stage_factors(total / f);
            match stage_factors(total / f) {
                Some(later) => {
                    let fs = seq![f] + later;
                    assert(fs.drop_first() =~= later);
                    assert(f * (total / f) == total) by (nonlinear_arith)
                        requires
                            f >= 2,
                            total % f == 0,
                    ;
                    assert forall|k: int| 0 <= k < fs.len() implies 1 <= #[trigger] fs[k] <= 10 by {
                        if k > 0 {
                            assert(fs[k] == later[k - 1]);
                        }
                    }
                },
                None => {
                    lemma_factors_from(total, i + 1);
                },
            }
        } else {
            lemma_factors_from(total, i + 1);
        }
    }
}

/// The preferred stage factors, largest first.
fn preferred_factors() -> (r: Vec<usize>)
    ensures
        r@.len() == 6,
        forall|i: int| 0 <= i < 6 ==> r@[i] == preferred_factor(i as nat),
{
    let r = vec![10, 8, 5, 4, 3, 2];
    proof {
        assert(r@[0] == preferred_factor(0));
        assert(r@[1] == preferred_factor(1));
        assert(r@[2] == preferred_factor(2));
        assert(r@[3] == preferred_factor(3));
        assert(r@[4] == preferred_factor(4));
        assert(r@[5] == preferred_factor(5));
    }
    r
}

/// The factors of a sequence of stage factors as machine integers.
pub open spec fn factor_values(v: Seq<usize>) -> Seq<nat> {
    v.map_values(|x: usize| x as nat)
}

/// Factor a total decimation into stages where each factor is <= 10.
///
/// Places the largest factors first (earliest stages) where the sample
/// rate is highest. This minimizes total computation: a large first-stage
/// factor means the expensive convolution fires less often per input
/// sample.
pub fn factor_into_stages(total: usize) -> (r: Result<Vec<usize>, DecimationError>)
    ensures
        match stage_factors(total as nat) {
            Some(fs) => r matches Ok(v) && factor_values(v@) == fs,
            None => r == Err::<Vec<usize>, DecimationError>(DecimationError::NoValidFactoring { total }),
        },
    decreases total,
{
    if total <= MAX_STAGE_FACTOR {
        let v = vec![total];
        assert(factor_values(v@) =~= seq![total as nat]);
        return Ok(v);
    }
    let prefs = preferred_factors();
    let mut i: usize = 0;
    while i < 6
        invariant
            i <= 6,
            total > 10,
            prefs@.len() == 6,
            forall|j: int| 0 <= j < 6 ==> prefs@[j] == preferred_factor(j as nat),
            stage_factors(total as nat) == factors_from(total as nat, i as nat),
        decreases 6 - i,
    {
        let f = prefs[i];
        if total % f == 0 {
            let remaining = total / f;
            assert(remaining < total) by (nonlinear_arith)
                requires
                    f >= 2,
                    total > 10,
                    remaining == total / f,
            ;
            match factor_into_stages(remaining) {
                Ok(later) => {
                    let mut out = later;
                    out.insert(0, f);
                    proof {
                        let later_spec = stage_factors(remaining as nat).unwrap();
                        assert(factor_values(out@) =~= seq![f as nat] + later_spec);
                    }
                    return Ok(out);
                },
                Err(_) => {},
            }
        }
        i += 1;
    }
    Err(DecimationError::NoValidFactoring { total })
}

/// The decimation chain from `sample_rate` to `target_rate`: an error when
/// either rate is zero (reported with the target rate raised to at least
/// one) or when the target does not divide the sample rate (with the
/// nearest multiples below and above); otherwise the stage factors of the
/// total decimation, or the factoring error.
pub open spec fn decimation_plan(sample_rate: u32, target_rate: u32) -> Result<Seq<nat>, DecimationError> {
    if sample_rate == 0 || target_rate == 0 {
        let t = if target_rate == 0 { 1u32 } else { target_rate };
        Err(DecimationError::NotDivisible { sample_rate, target_rate: t, nearest_lower: t, nearest_higher: t })
    } else if sample_rate % target_rate != 0 {
        let lower = (sample_rate / target_rate) * target_rate;
        Err(
            DecimationError::NotDivisible {
                sample_rate,
                target_rate,
                nearest_lower: lower as u32,
                nearest_higher: (lower + target_rate) as u32,
            },
        )
    } else {
        let total = (sample_rate / target_rate) as nat;
        match stage_factors(total) {
            Some(fs) => Ok(fs),
            None => Err(DecimationError::NoValidFactoring { total: total as usize }),
        }
    }
}

/// Compute the decimation stage factors that reduce `sample_rate` to
/// `target_rate`.
///
/// When the rates are equal the chain is a single stage of factor 1, which
/// still applies the channel low-pass filter.
pub fn decimation_factors(sample_rate: u32, target_rate: u32) -> (r: Result<Vec<usize>, DecimationError>)
    requires
        sample_rate > 0 && target_rate > 0 && sample_rate % target_rate != 0 ==> (sample_rate / target_rate)
            * target_rate + target_rate <= u32::MAX,
    ensures
        match decimation_plan(sample_rate, target_rate) {
            Ok(fs) => r matches Ok(v) && factor_values(v@) == fs,
            Err(e) => r == Err::<Vec<usize>, DecimationError>(e),
        },
{
    if sample_rate == 0 || target_rate == 0 {
        let t = if target_rate == 0 { 1 } else { target_rate };
        return Err(
            DecimationError::NotDivisible {
                sample_rate,
                target_rate: t,
                nearest_lower: t,
                nearest_higher: t,
            },
        );
    }
    if sample_rate % target_rate != 0 {
        let q = sample_rate / target_rate;
        assert(q * target_rate <= sample_rate) by (nonlinear_arith)
            requires
                q == sample_rate / target_rate,
                target_rate > 0,
        ;
        let nearest_lower = q * target_rate;
        let nearest_higher = nearest_lower + target_rate;
        return Err(DecimationError::NotDivisible { sample_rate, target_rate, nearest_lower, nearest_higher });
    }
    let total = (sample_rate / target_rate) as usize;
    factor_into_stages(total)
}

/// Modulation type for demodulation path selection.
#[derive(Debug, Clone, Copy, PartialEq, Eq)]
pub enum Modulation {
    /// C4FM (continuous 4-level FM) -- standard P25 modulation.
    C4fm,
    /// CQPSK (compatible quadrature phase shift keying) -- P25 simulcast.
    Cqpsk,
}

/// Configuration for constructing a channel pipeline.
#[derive(Debug, Clone, Copy)]
pub struct PipelineConfig {
    /// Input sample rate in hertz.
    pub sample_rate: u32,
    /// Modulation type.
    pub modulation: Modulation,
    /// NID integrity policy for accepting/rejecting data units.
    pub nid_integrity: NidIntegrityPolicy,
    /// Post-decimation samples without frame sync before resetting the
    /// demodulator for re-acquisition. `None` disables the timeout entirely.
    ///
    /// Control channel pipelines use [`CC_SYNC_TIMEOUT_SAMPLES`] to allow
    /// cold-start re-acquisition after PLL divergence. Voice channel
    /// pipelines should set `None`: they need 250 ms to 1 s for initial
    /// acquisition.
    pub sync_timeout_samples: Option<u32>,
}

/// The state of a channel pipeline's protocol side.
pub struct PipelineModel {
    /// Decimation stage factors, first applied first.
    pub factors: Seq<nat>,
    /// Modulation type.
    pub modulation: Modulation,
    /// Position of the status deinterleaver within its 36-dibit period.
    pub status: nat,
    /// The data unit receiver.
    pub receiver: ReceiverModel,
    /// Whether a frame sync has been seen and its data unit is in progress.
    pub synced: bool,
    /// Most recently decoded NAC.
    pub nac: u16,
    /// Total input samples processed.
    pub sample_count: nat,
    /// Post-decimation samples received while not synced.
    pub unsynced: nat,
    /// Sync timeout threshold in post-decimation samples.
    pub timeout: Option<u32>,
}

/// The invariant of a pipeline's state.
pub open spec fn pipeline_wf(m: PipelineModel) -> bool {
    &&& m.status < 36
    &&& receiver_wf(m.receiver)
    &&& m.unsynced == 0 || (m.timeout matches Some(t) && m.unsynced < t)
}

/// Per-channel protocol decode pipeline.
///
/// Turns demodulated symbols into `ReceiverEvent`s when protocol data
/// units are decoded, and tracks sync state and sample counts.
///
/// Does **not** contain the identifier table or NAC state -- those are
/// managed by the orchestrator that owns this pipeline.
pub struct ChannelPipeline {
    /// Decimation stage factors, first applied first.
    factors: Vec<usize>,
    /// Modulation type of the demodulation path.
    modulation: Modulation,
    status_deinterleaver: StatusDeinterleaver,
    receiver: DataUnitReceiver,
    synced: bool,
    /// Most recently decoded NAC from NID.
    current_nac: Nac,
    /// Total input samples processed.
    sample_count: u64,
    /// Post-decimation samples received while not synced. When this
    /// reaches the configured timeout, the demodulator is reset to allow
    /// re-acquisition.
    unsynced_samples: u32,
    /// Sync timeout threshold in post-decimation samples (`None` = disabled).
    sync_timeout_samples: Option<u32>,
}

impl View for ChannelPipeline {
    type V = PipelineModel;

    closed spec fn view(&self) -> PipelineModel {
        PipelineModel {
            factors: factor_values(self.factors@),
            modulation: self.modulation,
            status: self.status_deinterleaver@,
            receiver: self.receiver@,
            synced: self.synced,
            nac: self.current_nac@,
            sample_count: self.sample_count as nat,
            unsynced: self.unsynced_samples as nat,
            timeout: self.sync_timeout_samples,
        }
    }
}

/// The state of a freshly built pipeline with the given decimation factors.
pub open spec fn pipeline_start(config: PipelineConfig, fs: Seq<nat>) -> PipelineModel {
    PipelineModel {
        factors: fs,
        modulation: config.modulation,
        status: 24,
        receiver: receiver_start(config.nid_integrity),
        synced: false,
        nac: 0,
        sample_count: 0,
        unsynced: 0,
        timeout: config.sync_timeout_samples,
    }
}

/// One demodulated symbol through the protocol stack: ignored until a
/// frame sync; status symbols are stripped; data symbols go to the
/// receiver, whose events are reported; a finished data unit ends the
/// sync, and a NID event updates the NAC.
pub open spec fn pipeline_symbol(m: PipelineModel, d: Dibit, m2: PipelineModel, r: Option<ReceiverEvent>) -> bool {
    if !m.synced {
        m2 == m && r is None
    } else {
        let status = (m.status + 1) % 36;
        if status == 0 {
            m2 == PipelineModel { status, ..m } && r is None
        } else {
            exists|rx: ReceiverModel|
                #[trigger] receiver_step(m.receiver, d, rx, r) && m2 == PipelineModel {
                    status,
                    receiver: rx,
                    synced: rx.state != State::Skip,
                    nac: match r {
                        Some(ReceiverEvent::Nid(nid)) => nid.access_code@,
                        _ => m.nac,
                    },
                    ..m
                }
        }
    }
}

impl ChannelPipeline {
    /// The pipeline's invariant.
    pub closed spec fn wf(&self) -> bool {
        &&& self.status_deinterleaver.wf()
        &&& self.receiver.wf()
        &&& pipeline_wf(self@)
    }

    /// Build a new pipeline with the given configuration.
    ///
    /// Returns an error if the sample rate cannot be decimated to 24 kHz.
    pub fn new(config: PipelineConfig) -> (r: Result<Self, DecimationError>)
        requires
            config.sample_rate % CHANNEL_RATE != 0 ==> (config.sample_rate / CHANNEL_RATE) * CHANNEL_RATE
                + CHANNEL_RATE <= u32::MAX,
        ensures
            match decimation_plan(config.sample_rate, CHANNEL_RATE) {
                Ok(fs) => r matches Ok(p) && p.wf() && p@ == pipeline_start(config, fs),
                Err(e) => r matches Err(err) && err == e,
            },
    {
        let factors = match decimation_factors(config.sample_rate, CHANNEL_RATE) {
            Ok(f) => f,
            Err(e) => return Err(e),
        };
        let status_deinterleaver = StatusDeinterleaver::new();
        proof {
            status_deinterleaver.lemma_wf();
        }
        Ok(
            Self {
                factors,
                modulation: config.modulation,
                status_deinterleaver,
                receiver: DataUnitReceiver::new(config.nid_integrity),
                synced: false,
                current_nac: Nac::new(0),
                sample_count: 0,
                unsynced_samples: 0,
                sync_timeout_samples: config.sync_timeout_samples,
            },
        )
    }

    /// The decimation stage factors, first applied first.
    pub fn decimation_factors(&self) -> (r: &Vec<usize>)
        ensures
            factor_values(r@) == self@.factors,
    {
        &self.factors
    }

    /// The modulation type of the demodulation path.
    pub fn modulation(&self) -> (r: Modulation)
        ensures
            r == self@.modulation,
    {
        self.modulation
    }

    /// Return the most recently decoded NAC.
    pub fn current_nac(&self) -> (r: Nac)
        ensures
            r@ == self@.nac,
    {
        self.current_nac
    }

    /// Return the total number of input samples processed.
    pub fn sample_count(&self) -> (r: u64)
        ensures
            r == self@.sample_count,
    {
        self.sample_count
    }

    /// Whether a frame sync has been seen and its data unit is in progress.
    pub fn is_synced(&self) -> (r: bool)
        ensures
            r == self@.synced,
    {
        self.synced
    }

    /// Count one input sample.
    pub fn count_input_sample(&mut self)
        requires
            old(self).wf(),
            old(self)@.sample_count < u64::MAX,
        ensures
            final(self).wf(),
            final(self)@ == (PipelineModel { sample_count: old(self)@.sample_count + 1, ..old(self)@ }),
    {
        self.sample_count = self.sample_count + 1;
    }

    /// Count one post-decimation sample against the sync timeout. Returns
    /// `true` when the timeout fires: the caller then resets the signal path
    /// for re-acquisition, and the count starts again.
    pub fn count_channel_sample(&mut self) -> (reset: bool)
        requires
            old(self).wf(),
        ensures
            final(self).wf(),
            ({
                let m = old(self)@;
                match (m.synced, m.timeout) {
                    (false, Some(t)) => if m.unsynced + 1 >= t {
                        reset && final(self)@ == (PipelineModel { unsynced: 0, ..m })
                    } else {
                        !reset && final(self)@ == (PipelineModel { unsynced: m.unsynced + 1, ..m })
                    },
                    _ => !reset && final(self)@ == m,
                }
            }),
    {
        if !self.synced {
            if let Some(timeout) = self.sync_timeout_samples {
                self.unsynced_samples = self.unsynced_samples + 1;
                if self.unsynced_samples >= timeout {
                    self.unsynced_samples = 0;
                    return true;
                }
            }
        }
        false
    }

    /// Reset protocol state when a new frame sync is detected.
    pub fn handle_sync(&mut self)
        requires
            old(self).wf(),
        ensures
            final(self).wf(),
            final(self)@ == (PipelineModel {
                status: 24,
                receiver: receiver_start(old(self)@.receiver.policy),
                synced: true,
                unsynced: 0,
                ..old(self)@
            }),
    {
        self.unsynced_samples = 0;
        self.status_deinterleaver = StatusDeinterleaver::new();
        proof {
            self.status_deinterleaver.lemma_wf();
        }
        self.receiver.reset();
        proof {
            self.receiver.lemma_wf();
        }
        self.synced = true;
    }

    /// Process a single decoded symbol through the protocol stack.
    pub fn handle_symbol(&mut self, dibit: Dibit) -> (r: Option<ReceiverEvent>)
        requires
            old(self).wf(),
        ensures
            final(self).wf(),
            pipeline_symbol(old(self)@, dibit, final(self)@, r),
    {
        if !self.synced {
            return None;
        }

        // Strip status symbols.
        proof {
            self.status_deinterleaver.lemma_wf();
        }
        let data_dibit = match self.status_deinterleaver.feed(dibit) {
            StreamSymbol::Data(d) => d,
            StreamSymbol::Status(_) => {
                proof {
                    self.status_deinterleaver.lemma_wf();
                }
                return None;
            },
        };
        proof {
            self.status_deinterleaver.lemma_wf();
        }

        // Feed to protocol receiver.
        let event = self.receiver.feed(data_dibit);

        // If the receiver finished this data unit, wait for the next sync.
        if self.receiver.is_done() {
            self.synced = false;
        }

        // Update NAC from NID events.
        if let Some(ReceiverEvent::Nid(nid)) = &event {
            self.current_nac = nid.access_code;
        }
        proof {
            self.receiver.lemma_wf();
            assert(receiver_step(old(self)@.receiver, dibit, self@.receiver, event));
        }
        event
    }
}

} // verus!

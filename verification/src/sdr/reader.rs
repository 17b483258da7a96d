//! Decisions of the device reader loop.
//!
//! The loop reads MTU-sized chunks from the device stream; after each read
//! it hands the outcome to [`reader_step`], which decides whether to pass
//! the chunk on, retry, or give up after too many consecutive failures.
//! Timeouts are retried without counting, and an overflow (lost samples
//! that the driver recovers from) clears the failure count.

use vstd::prelude::*;

verus! {

/// Number of consecutive read errors after which the reader gives up.
pub const MAX_CONSECUTIVE_ERRORS: u32 = 50;

/// State the reader carries between reads.
#[derive(Debug, Clone, Copy, PartialEq, Eq, Structural)]
pub struct ReaderState {
    /// Read errors seen since the last successful read or overflow.
    pub consecutive_errors: u32,
    /// Whether no chunk has been read yet.
    pub first_read: bool,
}

/// Outcome of one read of the device stream.
#[derive(Debug, Clone, Copy, PartialEq, Eq, Structural)]
pub enum ReadEvent {
    /// A chunk of this many samples was read.
    Chunk(usize),
    /// No data arrived within the read timeout.
    Timeout,
    /// The device dropped samples and reset its buffer.
    Overflow,
    /// Any other read error.
    Error,
}

/// What the reader loop does next.
#[derive(Debug, Clone, Copy, PartialEq, Eq, Structural)]
pub enum ReaderAction {
    /// Send the first `count` samples of the chunk on; `first` marks the
    /// very first chunk, whose samples are logged.
    Send { count: usize, first: bool },
    /// Read again.
    Retry,
    /// Count one more overflow, then read again.
    CountOverflow,
    /// Report a stream failure after this many consecutive errors, and stop.
    GiveUp { errors: u32 },
}

impl ReaderState {
    /// The state before the first read.
    pub fn new() -> (r: ReaderState)
        ensures
            r == (ReaderState { consecutive_errors: 0, first_read: true }),
    {
        ReaderState { consecutive_errors: 0, first_read: true }
    }
}

/// The next state and action for one read outcome.
pub open spec fn reader_next(s: ReaderState, e: ReadEvent) -> (ReaderState, ReaderAction) {
    match e {
        ReadEvent::Chunk(count) => (
            ReaderState { consecutive_errors: 0, first_read: false },
            ReaderAction::Send { count, first: s.first_read },
        ),
        ReadEvent::Timeout => (s, ReaderAction::Retry),
        ReadEvent::Overflow => (ReaderState { consecutive_errors: 0, ..s }, ReaderAction::CountOverflow),
        ReadEvent::Error => {
            let errors = (s.consecutive_errors + 1) as u32;
            (
                ReaderState { consecutive_errors: errors, ..s },
                if errors >= MAX_CONSECUTIVE_ERRORS {
                    ReaderAction::GiveUp { errors }
                } else {
                    ReaderAction::Retry
                },
            )
        },
    }
}

/// The actions of the loop over a run of read outcomes, and its final
/// state: the loop stops at the first `GiveUp`.
pub open spec fn reader_run(s: ReaderState, evs: Seq<ReadEvent>) -> (ReaderState, Seq<ReaderAction>)
    decreases evs.len(),
{
    if evs.len() == 0 {
        (s, Seq::empty())
    } else {
        let (s1, a) = reader_next(s, evs[0]);
        if a is GiveUp {
            (s1, seq![a])
        } else {
            let (s2, rest) = reader_run(s1, evs.drop_first());
            (s2, seq![a] + rest)
        }
    }
}

/// The number of read errors (other than timeouts and overflows) in a run.
pub open spec fn error_count(evs: Seq<ReadEvent>) -> nat
    decreases evs.len(),
{
    if evs.len() == 0 {
        0
    } else {
        (if evs[0] is Error { 1nat } else { 0nat }) + error_count(evs.drop_first())
    }
}

/// One decision of the reader loop: from the state and the outcome of a
/// read, the next state and what to do.
///
/// A chunk clears the error count and is sent on; a timeout changes
/// nothing and retries; an overflow clears the error count, is counted and
/// retries; any other error adds one to the count and gives up exactly
/// when the count reaches [`MAX_CONSECUTIVE_ERRORS`].
pub fn reader_step(s: ReaderState, e: ReadEvent) -> (r: (ReaderState, ReaderAction))
    requires
        s.consecutive_errors < MAX_CONSECUTIVE_ERRORS,
    ensures
        r == reader_next(s, e),
        match e {
            ReadEvent::Chunk(count) => r == (
                ReaderState { consecutive_errors: 0, first_read: false },
                ReaderAction::Send { count, first: s.first_read },
            ),
            ReadEvent::Timeout => r == (s, ReaderAction::Retry),
            ReadEvent::Overflow => r == (
                ReaderState { consecutive_errors: 0, ..s },
                ReaderAction::CountOverflow,
            ),
            ReadEvent::Error => {
                &&& r.0 == (ReaderState { consecutive_errors: (s.consecutive_errors + 1) as u32, ..s })
                &&& r.1 == if s.consecutive_errors + 1 >= MAX_CONSECUTIVE_ERRORS {
                    ReaderAction::GiveUp { errors: (s.consecutive_errors + 1) as u32 }
                } else {
                    ReaderAction::Retry
                }
            },
        },
        !(r.1 is GiveUp) ==> r.0.consecutive_errors < MAX_CONSECUTIVE_ERRORS,
{
    match e {
        ReadEvent::Chunk(count) => (
            ReaderState { consecutive_errors: 0, first_read: false },
            ReaderAction::Send { count, first: s.first_read },
        ),
        ReadEvent::Timeout => (s, ReaderAction::Retry),
        ReadEvent::Overflow => (ReaderState { consecutive_errors: 0, ..s }, ReaderAction::CountOverflow),
        ReadEvent::Error => {
            let errors = s.consecutive_errors + 1;
            let next = ReaderState { consecutive_errors: errors, ..s };
            if errors >= MAX_CONSECUTIVE_ERRORS {
                (next, ReaderAction::GiveUp { errors })
            } else {
                (next, ReaderAction::Retry)
            }
        },
    }
}

/// A run of read errors, with timeouts in between, only retries while
/// fewer than 50 errors have come in a row, and gives up exactly at the
/// read that makes 50: from a count `c`, after a run with `n` errors the
/// count is c + n, every action is a retry, and the last is `GiveUp` just
/// when c + n reaches 50.
pub proof fn lemma_error_run(s: ReaderState, evs: Seq<ReadEvent>)
    requires
        s.consecutive_errors < MAX_CONSECUTIVE_ERRORS,
        forall|i: int| 0 <= i < evs.len() ==> (#[trigger] evs[i] is Error || evs[i] is Timeout),
        s.consecutive_errors + error_count(evs) < MAX_CONSECUTIVE_ERRORS || (evs.len() > 0 && evs.last() is Error
            && s.consecutive_errors + error_count(evs) == MAX_CONSECUTIVE_ERRORS),
    ensures
        reader_run(s, evs).1.len() == evs.len(),
        reader_run(s, evs).0.consecutive_errors == s.consecutive_errors + error_count(evs),
        forall|i: int| 0 <= i < evs.len() - 1 ==> #[trigger] reader_run(s, evs).1[i] == ReaderAction::Retry,
        evs.len() > 0 ==> (reader_run(s, evs).1.last() == if s.consecutive_errors + error_count(evs)
            == MAX_CONSECUTIVE_ERRORS {
            ReaderAction::GiveUp { errors: MAX_CONSECUTIVE_ERRORS }
        } else {
            ReaderAction::Retry
        }),
    decreases evs.len(),
{
    if evs.len() > 0 {
        let rest = evs.drop_first();
        let (s1, a) = reader_next(s, evs[0]);
        assert(forall|i: int| 0 <= i < rest.len() ==> #[trigger] rest[i] == evs[i + 1]);
        if a is GiveUp {
            // Only the 50th error gives up, and it is the last read.
            if rest.len() > 0 {
                lemma_error_count_last(evs);
            }
        } else if rest.len() > 0 {
            assert(rest.last() == evs.last());
            lemma_error_run(s1, rest);
            let (s2, acts) = reader_run(s1, rest);
            assert(reader_run(s, evs).1 == seq![a] + acts);
        }
    }
}

/// In a run that ends with an error, the errors before the last read are
/// one fewer than all of them.
proof fn lemma_error_count_last(evs: Seq<ReadEvent>)
    requires
        evs.len() > 1,
        evs.last() is Error,
    ensures
        error_count(evs.drop_first()) >= 1,
    decreases evs.len(),
{
    let rest = evs.drop_first();
    if rest.len() > 1 {
        assert(rest.last() == evs.last());
        lemma_error_count_last(rest);
    } else {
        assert(rest[0] == evs.last());
        assert(rest.drop_first().len() == 0);
    }
}

/// The depth of the sample channel: `buffer_ms` milliseconds (at least
/// one) of samples at `sample_rate_hz`, counted in chunks of `mtu` samples,
/// and never below two chunks.
pub open spec fn spec_channel_capacity(buffer_ms: u32, sample_rate_hz: u32, mtu: u64) -> int {
    let ms: int = if buffer_ms < 1 { 1 } else { buffer_ms as int };
    let chunks = (ms * sample_rate_hz) / (mtu * 1000);
    if chunks < 2 { 2 } else { chunks }
}

/// Channel depth, in chunks, for `buffer_ms` milliseconds of samples.
pub fn channel_capacity(buffer_ms: u32, sample_rate_hz: u32, mtu: u64) -> (r: u64)
    requires
        1 <= mtu <= u64::MAX / 1000,
    ensures
        r as int == spec_channel_capacity(buffer_ms, sample_rate_hz, mtu),
{
    let ms: u32 = if buffer_ms < 1 { 1 } else { buffer_ms };
    assert(ms as u64 * sample_rate_hz as u64 <= u32::MAX as u64 * u32::MAX as u64) by (nonlinear_arith)
        requires
            ms <= u32::MAX,
            sample_rate_hz <= u32::MAX,
    ;
    let chunks = (ms as u64 * sample_rate_hz as u64) / (mtu * 1000);
    if chunks < 2 {
        2
    } else {
        chunks
    }
}

/// The number of samples discarded while the hardware settles: 200 ms.
pub fn settle_samples(sample_rate_hz: u32) -> (r: u64)
    ensures
        r == sample_rate_hz / 5,
{
    (sample_rate_hz / 5) as u64
}

/// One step of discarding samples while the hardware settles: a chunk adds
/// its samples to the count; a timeout or an overflow reads again; any
/// other error stops settling. Settling goes on while fewer than `target`
/// samples have been discarded.
pub fn settle_step(discarded: u64, target: u64, e: ReadEvent) -> (r: (u64, bool))
    requires
        match e {
            ReadEvent::Chunk(n) => discarded + n <= u64::MAX,
            _ => true,
        },
    ensures
        match e {
            ReadEvent::Chunk(n) => r == ((discarded + n) as u64, discarded + n < target),
            ReadEvent::Timeout | ReadEvent::Overflow => r == (discarded, discarded < target),
            ReadEvent::Error => r == (discarded, false),
        },
{
    match e {
        ReadEvent::Chunk(n) => {
            let d = discarded + n as u64;
            (d, d < target)
        },
        ReadEvent::Timeout | ReadEvent::Overflow => (discarded, discarded < target),
        ReadEvent::Error => (discarded, false),
    }
}

} // verus!

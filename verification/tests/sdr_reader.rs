use trunker::sdr::reader::{
    channel_capacity, reader_step, settle_samples, settle_step, ReadEvent, ReaderAction, ReaderState,
    MAX_CONSECUTIVE_ERRORS,
};

#[test]
fn chunk_resets_errors_and_sends() {
    let s = ReaderState { consecutive_errors: 7, first_read: true };
    let (next, action) = reader_step(s, ReadEvent::Chunk(1024));
    assert_eq!(next, ReaderState { consecutive_errors: 0, first_read: false });
    assert_eq!(action, ReaderAction::Send { count: 1024, first: true });
    let (next2, action2) = reader_step(next, ReadEvent::Chunk(10));
    assert_eq!(next2, next);
    assert_eq!(action2, ReaderAction::Send { count: 10, first: false });
}

#[test]
fn timeout_retries_unchanged() {
    let s = ReaderState { consecutive_errors: 3, first_read: false };
    assert_eq!(reader_step(s, ReadEvent::Timeout), (s, ReaderAction::Retry));
}

#[test]
fn overflow_resets_errors() {
    let s = ReaderState { consecutive_errors: 49, first_read: false };
    let (next, action) = reader_step(s, ReadEvent::Overflow);
    assert_eq!(next.consecutive_errors, 0);
    assert_eq!(action, ReaderAction::CountOverflow);
}

#[test]
fn gives_up_after_max_consecutive_errors() {
    let mut s = ReaderState::new();
    for i in 1..MAX_CONSECUTIVE_ERRORS {
        let (next, action) = reader_step(s, ReadEvent::Error);
        assert_eq!(action, ReaderAction::Retry);
        assert_eq!(next.consecutive_errors, i);
        s = next;
    }
    let (_, action) = reader_step(s, ReadEvent::Error);
    assert_eq!(action, ReaderAction::GiveUp { errors: 50 });
}

#[test]
fn timeouts_do_not_reset_error_run() {
    let s = ReaderState { consecutive_errors: 48, first_read: false };
    let (s, _) = reader_step(s, ReadEvent::Timeout);
    let (s, a) = reader_step(s, ReadEvent::Error);
    assert_eq!(a, ReaderAction::Retry);
    let (_, a) = reader_step(s, ReadEvent::Error);
    assert_eq!(a, ReaderAction::GiveUp { errors: 50 });
}

#[test]
fn channel_capacity_counts_chunks_of_buffer() {
    assert_eq!(channel_capacity(500, 2_400_000, 65_536), 18);
    assert_eq!(channel_capacity(0, 48_000, 1_024), 2);
    assert_eq!(channel_capacity(1_000, 48_000, 1_000), 48);
}

#[test]
fn settling_discards_200_ms() {
    assert_eq!(settle_samples(2_400_000), 480_000);
    assert_eq!(settle_step(0, 10, ReadEvent::Chunk(4)), (4, true));
    assert_eq!(settle_step(8, 10, ReadEvent::Chunk(4)), (12, false));
    assert_eq!(settle_step(8, 10, ReadEvent::Timeout), (8, true));
    assert_eq!(settle_step(8, 10, ReadEvent::Error), (8, false));
}

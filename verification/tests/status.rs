use trunker::p25::status::{StatusCode, StatusDeinterleaver, StreamSymbol};
use trunker::p25::types::Dibit;

#[test]
fn status_code_from_dibit_roundtrip() {
    for value in 0..=3u8 {
        let dibit = Dibit::new(value);
        let code = StatusCode::from_dibit(dibit);
        assert_eq!(code.to_dibit(), dibit);
    }
}

#[test]
fn status_code_variant_mapping() {
    assert_eq!(
        StatusCode::from_dibit(Dibit::new(0b00)),
        StatusCode::SubscriberDirect
    );
    assert_eq!(
        StatusCode::from_dibit(Dibit::new(0b01)),
        StatusCode::InboundBusy
    );
    assert_eq!(
        StatusCode::from_dibit(Dibit::new(0b10)),
        StatusCode::SubscriberRepeater
    );
    assert_eq!(
        StatusCode::from_dibit(Dibit::new(0b11)),
        StatusCode::InboundIdle
    );
}

#[test]
fn first_status_after_sync_at_position_12() {
    let mut deinterleaver = StatusDeinterleaver::new();

    // After sync (24 symbols), next 11 should be data
    for _ in 0..11 {
        let result = deinterleaver.feed(Dibit::new(0b00));
        assert_eq!(result, StreamSymbol::Data(Dibit::new(0b00)));
    }

    // 12th symbol should be status (24 + 12 = 36 = one full period)
    let result = deinterleaver.feed(Dibit::new(0b00));
    assert_eq!(result, StreamSymbol::Status(StatusCode::SubscriberDirect));
}

#[test]
fn subsequent_status_every_36_symbols() {
    let mut deinterleaver = StatusDeinterleaver::new();

    // First 11 data + 1 status
    for _ in 0..11 {
        deinterleaver.feed(Dibit::new(0b00));
    }
    let result = deinterleaver.feed(Dibit::new(0b00));
    assert!(matches!(result, StreamSymbol::Status(_)));

    // Next 35 data + 1 status
    for _ in 0..35 {
        let result = deinterleaver.feed(Dibit::new(0b00));
        assert_eq!(result, StreamSymbol::Data(Dibit::new(0b00)));
    }
    let result = deinterleaver.feed(Dibit::new(0b00));
    assert!(matches!(result, StreamSymbol::Status(_)));

    // And again: 35 data + 1 status
    for _ in 0..35 {
        let result = deinterleaver.feed(Dibit::new(0b00));
        assert_eq!(result, StreamSymbol::Data(Dibit::new(0b00)));
    }
    let result = deinterleaver.feed(Dibit::new(0b00));
    assert!(matches!(result, StreamSymbol::Status(_)));
}

#[test]
fn status_symbol_carries_correct_code() {
    let mut deinterleaver = StatusDeinterleaver::new();

    // Advance to first status position
    for _ in 0..11 {
        deinterleaver.feed(Dibit::new(0b00));
    }

    // Feed InboundBusy (0b01) at status position
    let result = deinterleaver.feed(Dibit::new(0b01));
    assert_eq!(result, StreamSymbol::Status(StatusCode::InboundBusy));

    // Advance to next status position
    for _ in 0..35 {
        deinterleaver.feed(Dibit::new(0b00));
    }

    // Feed InboundIdle (0b11) at status position
    let result = deinterleaver.feed(Dibit::new(0b11));
    assert_eq!(result, StreamSymbol::Status(StatusCode::InboundIdle));
}

#[test]
fn data_symbols_preserve_dibit_value() {
    let mut deinterleaver = StatusDeinterleaver::new();

    // Feed different dibit values and verify they are preserved
    for value in 0..=3u8 {
        let result = deinterleaver.feed(Dibit::new(value));
        assert_eq!(result, StreamSymbol::Data(Dibit::new(value)));
    }
}

#[test]
fn status_symbol_every_36_after_twelve() {
    let mut s = StatusDeinterleaver::new();
    for n in 1..=200usize {
        let out = s.feed(Dibit::new(1));
        let is_status = matches!(out, StreamSymbol::Status(_));
        assert_eq!(is_status, n % 36 == 12, "call {n}");
    }
}

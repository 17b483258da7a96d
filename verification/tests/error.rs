use trunker::p25::error::P25Error;

#[test]
fn crc_mismatch_display() {
    let err = P25Error::CrcMismatch {
        expected: 0x1A3F,
        actual: 0x0000,
    };
    assert_eq!(
        err.to_string(),
        "CRC mismatch: expected 0x1A3F, got 0x0000"
    );
}

#[test]
fn payload_too_short_display() {
    let err = P25Error::PayloadTooShort {
        expected: 12,
        actual: 8,
    };
    assert_eq!(
        err.to_string(),
        "payload too short: expected 12 bytes, got 8"
    );
}

#[test]
fn trellis_decode_display() {
    let err = P25Error::TrellisDecode {
        reason: "invalid constellation point".to_string(),
    };
    assert_eq!(
        err.to_string(),
        "trellis decode error: invalid constellation point"
    );
}

#[test]
fn no_frame_sync_display() {
    let err = P25Error::NoFrameSync;
    assert_eq!(err.to_string(), "frame sync not found");
}

#[test]
fn unknown_data_unit_display() {
    let err = P25Error::UnknownDataUnit { duid: 0x0F };
    assert_eq!(err.to_string(), "unknown data unit: DUID 0xF");
}

use trunker::sdr::error::SdrError;

#[test]
fn open_file_error_display() {
    let err = SdrError::OpenFile {
        path: String::from("/tmp/test.iq"),
        source: String::from("not found"),
    };
    let msg = err.to_string();
    assert!(msg.contains("/tmp/test.iq"));
    assert!(msg.contains("not found"));
}

#[test]
fn read_error_display() {
    let err = SdrError::Read(String::from("unexpected end of file"));
    assert_eq!(err.to_string(), "read error on IQ file: unexpected end of file");
}

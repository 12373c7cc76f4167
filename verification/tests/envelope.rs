use plcrash::error::ErrorKind;
use plcrash::read_report;

#[test]
fn wrong_magic_rejected() {
    let data = b"plcrish\x01payload";
    assert_eq!(read_report(data), Err(ErrorKind::WrongMagic));
}

#[test]
fn wrong_magic_wins_over_version_byte() {
    // The version byte is ignored when the magic is wrong.
    let data = b"AAAAAAA\x01";
    assert_eq!(read_report(data), Err(ErrorKind::WrongMagic));
    let data2 = b"AAAAAAA\x07";
    assert_eq!(read_report(data2), Err(ErrorKind::WrongMagic));
}

#[test]
fn short_input_rejected() {
    assert_eq!(read_report(b""), Err(ErrorKind::WrongMagic));
    assert_eq!(read_report(b"plc"), Err(ErrorKind::WrongMagic));
    // Seven magic bytes but no version byte at all.
    assert_eq!(read_report(b"plcrash"), Err(ErrorKind::WrongVersion));
}

#[test]
fn wrong_version_rejected() {
    assert_eq!(read_report(b"plcrash\x00"), Err(ErrorKind::WrongVersion));
    assert_eq!(read_report(b"plcrash\x02"), Err(ErrorKind::WrongVersion));
    assert_eq!(read_report(b"plcrash\xff"), Err(ErrorKind::WrongVersion));
}

#[test]
fn valid_envelope_hands_back_payload() {
    let data = b"plcrash\x01\xde\xad\xbe\xef";
    assert_eq!(read_report(data), Ok(vec![0xde, 0xad, 0xbe, 0xef]));
}

#[test]
fn valid_envelope_empty_payload() {
    let data = b"plcrash\x01";
    assert_eq!(read_report(data), Ok(Vec::new()));
}

#[test]
fn empty_payload_decodes_to_zero_report_and_renders() {
    let payload = plcrash::read_report(b"plcrash\x01").unwrap();
    assert!(payload.is_empty());
    // An empty payload denotes the zero-valued report.
    let report = plcrash::report::CrashReport::zeroed();
    let text = plcrash::text::text_report(&report, None).unwrap();
    assert!(text.contains("Report Version:  104\n"));
    assert!(text.ends_with("Binary Images:\n"));
}

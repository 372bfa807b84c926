//! The wire framing: serialization, parsing, and their round trip.

use shift::framing::{ProtocolError, TabMessageFrame, validate_utf8};

#[test]
fn serialize_plain_frame() {
    let frame = TabMessageFrame::raw(b"hello".to_vec(), b"{\"x\":1}".to_vec());
    assert_eq!(frame.serialize(), b"hello\n{\"x\":1}\n".to_vec());
}

#[test]
fn serialize_no_payload_uses_nul_marker() {
    let frame = TabMessageFrame::no_payload(b"ping".to_vec());
    assert_eq!(frame.serialize(), b"ping\n\0\0\0\0\n".to_vec());
}

#[test]
fn serialize_trims_header_whitespace_and_payload_newlines() {
    let frame = TabMessageFrame {
        header: b"hello  \t ".to_vec(),
        payload: Some(b"body\n\n".to_vec()),
        fds: vec![],
    };
    assert_eq!(frame.serialize(), b"hello\nbody\n".to_vec());
}

#[test]
fn parse_round_trips_a_payload_frame() {
    let frame = TabMessageFrame::raw(b"swap".to_vec(), b"{\"buffer\":0}".to_vec());
    let bytes = frame.serialize();
    let (parsed, used) = TabMessageFrame::parse_from_bytes(&bytes, vec![7, 8])
        .unwrap()
        .unwrap();
    assert_eq!(used, bytes.len());
    assert_eq!(parsed.header, b"swap".to_vec());
    assert_eq!(parsed.payload, Some(b"{\"buffer\":0}".to_vec()));
    assert_eq!(parsed.fds, vec![7, 8]);
}

#[test]
fn nul_marker_round_trips_to_no_payload() {
    let frame = TabMessageFrame::no_payload(b"hello".to_vec());
    let bytes = frame.serialize();
    let (parsed, used) = TabMessageFrame::parse_from_bytes(&bytes, vec![])
        .unwrap()
        .unwrap();
    assert_eq!(used, bytes.len());
    assert_eq!(parsed.header, b"hello".to_vec());
    assert_eq!(parsed.payload, None);
}

#[test]
fn parse_needs_two_newlines() {
    assert!(matches!(
        TabMessageFrame::parse_from_bytes(b"header-only", vec![]),
        Ok(None)
    ));
    assert!(matches!(
        TabMessageFrame::parse_from_bytes(b"header\npartial-payload", vec![]),
        Ok(None)
    ));
}

#[test]
fn parse_rejects_invalid_utf8() {
    let bytes = b"ok\n\xff\xfe\n".to_vec();
    assert!(matches!(
        TabMessageFrame::parse_from_bytes(&bytes, vec![]),
        Err(ProtocolError::Utf8)
    ));
}

#[test]
fn parse_reports_consumed_length_with_trailing_bytes() {
    let bytes = b"a\nb\n\0\0".to_vec();
    let (parsed, used) = TabMessageFrame::parse_from_bytes(&bytes, vec![])
        .unwrap()
        .unwrap();
    assert_eq!(used, 4);
    assert_eq!(parsed.header, b"a".to_vec());
    assert_eq!(parsed.payload, Some(b"b".to_vec()));
}

#[test]
fn expect_n_fds_checks_the_count() {
    let frame = TabMessageFrame {
        header: b"link".to_vec(),
        payload: None,
        fds: vec![3, 4],
    };
    assert!(frame.expect_n_fds(2).is_ok());
    assert_eq!(
        frame.expect_n_fds(1),
        Err(ProtocolError::ExpectedFds {
            expected: 1,
            found: 2
        })
    );
}

#[test]
fn utf8_validator_agrees_with_the_standard() {
    assert!(validate_utf8(b"plain ascii"));
    assert!(validate_utf8("snowman \u{2603} and \u{1F600}".as_bytes()));
    assert!(validate_utf8(b""));
    assert!(!validate_utf8(b"\xff"));
    assert!(!validate_utf8(b"\xc3"));
    assert!(!validate_utf8(b"\xc0\xaf"));
    assert!(!validate_utf8(b"\xed\xa0\x80"));
    assert!(!validate_utf8(b"\xf4\x90\x80\x80"));
}

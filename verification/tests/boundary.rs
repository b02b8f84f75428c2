use hexbound::{error_code, parse_hex, Error};

#[test]
fn success_writes_value_and_no_error() {
    let reply = parse_hex(Some(b"0x1a"), true, true);
    assert_eq!(reply.status, 0);
    assert_eq!(reply.value, Some(26));
    assert!(reply.error.is_none());
}

#[test]
fn success_without_prefix() {
    let reply = parse_hex(Some(b"FF"), true, true);
    assert_eq!(reply.status, 0);
    assert_eq!(reply.value, Some(255));
}

#[test]
fn missing_text_is_a_null_pointer_error() {
    let reply = parse_hex(None, true, true);
    assert_eq!(reply.status, 1);
    assert!(reply.value.is_none());
    assert!(matches!(reply.error, Some(Error::NullPointer { .. })));
}

#[test]
fn missing_result_slot_is_checked_before_the_text() {
    // Both the text and the result slot are absent: the reply still carries
    // the null-pointer code, not any text-related one.
    let reply = parse_hex(None, false, true);
    assert_eq!(reply.status, 1);
    assert!(reply.value.is_none());
    assert!(matches!(reply.error, Some(Error::NullPointer { .. })));
}

#[test]
fn missing_result_slot_rejects_even_good_text() {
    let reply = parse_hex(Some(b"0x1a"), false, true);
    assert_eq!(reply.status, 1);
    assert!(reply.value.is_none());
}

#[test]
fn invalid_encoding_is_reported() {
    let reply = parse_hex(Some(&[0xff, 0x61]), true, true);
    assert_eq!(reply.status, 5);
    assert!(matches!(reply.error, Some(Error::InvalidUTF8 { .. })));
}

#[test]
fn error_reporting_is_best_effort() {
    // No error slot: the error object is discarded, the code still comes back.
    let reply = parse_hex(Some(b"0x"), true, false);
    assert_eq!(reply.status, 2);
    assert!(reply.error.is_none());
}

#[test]
fn status_matches_the_error_code() {
    let reply = parse_hex(Some(b"1g"), true, true);
    assert_eq!(reply.status, 3);
    match reply.error {
        Some(Error::InvalidHexDigit { ch, .. }) => assert_eq!(ch, 'g'),
        _ => panic!("expected an invalid-digit error"),
    }
}

#[test]
fn overflow_crosses_the_boundary() {
    let reply = parse_hex(Some(b"256"), true, true);
    assert_eq!(reply.status, 4);
    match reply.error {
        Some(e) => assert_eq!(error_code(&e), 4),
        None => panic!("expected an error object"),
    }
}

#[test]
fn empty_after_prefix_crosses_as_invalid_format() {
    let reply = parse_hex(Some(b"0x"), true, true);
    assert_eq!(reply.status, 2);
    assert!(matches!(reply.error, Some(Error::InvalidFormat { .. })));
}

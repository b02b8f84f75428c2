use hexbound::hex::parsehex;
use hexbound::Error;

#[test]
fn it_works() {
    assert_eq!(2 + 2, 4);
}

#[test]
fn parses_prefixed_text() {
    match parsehex("0x1a") {
        Ok(v) => assert_eq!(v, 26),
        Err(_) => panic!("expected success"),
    }
}

#[test]
fn parses_bare_text() {
    match parsehex("FF") {
        Ok(v) => assert_eq!(v, 255),
        Err(_) => panic!("expected success"),
    }
}

#[test]
fn parses_zero() {
    match parsehex("00") {
        Ok(v) => assert_eq!(v, 0),
        Err(_) => panic!("expected success"),
    }
}

#[test]
fn empty_after_prefix_is_invalid_format() {
    assert!(matches!(parsehex("0x"), Err(Error::InvalidFormat { .. })));
}

#[test]
fn empty_text_is_invalid_format() {
    assert!(matches!(parsehex(""), Err(Error::InvalidFormat { .. })));
}

#[test]
fn first_bad_character_is_reported() {
    match parsehex("1g") {
        Err(Error::InvalidHexDigit { ch, .. }) => assert_eq!(ch, 'g'),
        _ => panic!("expected an invalid-digit error"),
    }
}

#[test]
fn bad_character_reported_is_leftmost() {
    match parsehex("0xa!b?") {
        Err(Error::InvalidHexDigit { ch, .. }) => assert_eq!(ch, '!'),
        _ => panic!("expected an invalid-digit error"),
    }
}

#[test]
fn three_digits_overflow_an_eight_bit_target() {
    assert!(matches!(parsehex("256"), Err(Error::Overflow { .. })));
}

#[test]
fn overflow_wins_over_a_later_bad_character() {
    // The scan overflows on the fourth digit before it reaches the '!'.
    assert!(matches!(parsehex("1234!"), Err(Error::Overflow { .. })));
}

#[test]
fn largest_value_fits() {
    match parsehex("0xff") {
        Ok(v) => assert_eq!(v, 255),
        Err(_) => panic!("expected success"),
    }
}

#[test]
fn fresh_parse_errors_are_leaves() {
    match parsehex("zz") {
        Err(e) => {
            assert!(hexbound::error_source(&e).is_none());
            assert!(hexbound::error_backtrace(&e).is_some());
        },
        Ok(_) => panic!("expected failure"),
    }
}

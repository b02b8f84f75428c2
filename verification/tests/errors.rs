use hexbound::{
    error_backtrace, error_backtrace_text, error_cause_duplicate, error_code, error_message,
    error_source, Error,
};

#[test]
fn codes_are_stable_per_variant() {
    assert_eq!(error_code(&Error::null_pointer()), 1);
    assert_eq!(error_code(&Error::invalid_format()), 2);
    assert_eq!(error_code(&Error::invalid_hex_digit('g')), 3);
    assert_eq!(error_code(&Error::overflow()), 4);
    assert_eq!(error_code(&Error::invalid_utf8()), 5);
}

#[test]
fn get_code_is_idempotent() {
    let e = Error::overflow();
    let first = error_code(&e);
    let second = error_code(&e);
    assert_eq!(first, second);
    assert_eq!(first, 4);
}

#[test]
fn messages_match_each_variant() {
    assert_eq!(error_message(&Error::null_pointer()), "Null pointer");
    assert_eq!(error_message(&Error::invalid_format()), "Invalid format");
    assert_eq!(error_message(&Error::invalid_hex_digit('g')), "Invalid hex digit: g");
    assert_eq!(error_message(&Error::overflow()), "Overflow");
    assert_eq!(error_message(&Error::invalid_utf8()), "Invalid UTF-8");
}

#[test]
fn messages_are_never_empty() {
    assert!(!error_message(&Error::null_pointer()).is_empty());
    assert!(!error_message(&Error::invalid_format()).is_empty());
    assert!(!error_message(&Error::invalid_hex_digit('\u{1F600}')).is_empty());
    assert!(!error_message(&Error::overflow()).is_empty());
    assert!(!error_message(&Error::invalid_utf8()).is_empty());
}

#[test]
fn constructors_attach_no_cause_and_capture_a_trace() {
    let e = Error::invalid_hex_digit('q');
    assert!(error_source(&e).is_none());
    assert!(error_backtrace(&e).is_some());
    assert_eq!(error_backtrace_text(&e), *error_backtrace(&e));
}

#[test]
fn chaining_is_explicit_and_queryable() {
    let cause = Error::invalid_format();
    let e = Error::overflow().with_cause(cause);
    assert_eq!(error_code(&e), 4);
    let chained = error_source(&e);
    match chained {
        Some(c) => assert_eq!(error_code(c), 2),
        None => panic!("expected a cause"),
    }
}

#[test]
fn cause_is_duplicated_not_shared() {
    let e = Error::null_pointer().with_cause(Error::invalid_utf8());
    let first = error_cause_duplicate(&e);
    match first {
        Some(c) => assert_eq!(error_code(&c), 5),
        None => panic!("expected a cause"),
    }
    // The parent still owns its own chain after the query.
    let second = error_cause_duplicate(&e);
    match second {
        Some(c) => assert_eq!(error_code(&c), 5),
        None => panic!("expected the cause to still be there"),
    }
}

#[test]
fn no_cause_duplicates_to_none() {
    assert!(error_cause_duplicate(&Error::overflow()).is_none());
}

#[test]
fn duplicate_preserves_the_whole_chain() {
    let e = Error::invalid_hex_digit('z').with_cause(Error::overflow());
    let d = e.duplicate();
    assert_eq!(error_code(&d), error_code(&e));
    assert_eq!(error_message(&d), error_message(&e));
    assert_eq!(error_backtrace_text(&d), error_backtrace_text(&e));
    match (error_source(&d), error_source(&e)) {
        (Some(dc), Some(ec)) => assert_eq!(error_code(dc), error_code(ec)),
        _ => panic!("both copies must carry the cause"),
    }
}

#[test]
fn destroying_one_handle_leaves_others_intact() {
    let kept = Error::invalid_hex_digit('g');
    let discarded = Error::overflow();
    drop(discarded);
    assert_eq!(error_code(&kept), 3);
    assert_eq!(error_message(&kept), "Invalid hex digit: g");
}

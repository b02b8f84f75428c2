//! The error object model: a closed set of failure kinds, each carrying an
//! optional causal predecessor and an optional diagnostic trace captured at
//! construction time.
//!
//! An `Error`, once constructed, is never mutated.  The cause chain is a
//! finite, acyclic singly-linked structure: each link is exclusively owned
//! by its parent, so a cycle cannot be built.

use vstd::prelude::*;

verus! {

/// Payload shared by every error variant: an optional causal predecessor
/// and an optional diagnostic trace snapshot, both fixed at construction.
pub struct ErrorCommon {
    pub source: Option<Box<Error>>,
    pub backtrace: Option<String>,
}

/// The closed set of failure kinds the boundary can report.
pub enum Error {
    /// A required input handle was absent.
    NullPointer { common: ErrorCommon },
    /// Input was structurally empty or malformed before digit-level parsing.
    InvalidFormat { common: ErrorCommon },
    /// A character outside `[0-9a-fA-F]` was encountered.
    InvalidHexDigit { common: ErrorCommon, ch: char },
    /// The accumulated numeric value exceeded the target width.
    Overflow { common: ErrorCommon },
    /// Input bytes were not valid text in the required encoding.
    InvalidUTF8 { common: ErrorCommon },
}

impl Error {
    /// The shared payload of whichever variant this is.
    pub open spec fn common_of(self) -> ErrorCommon {
        match self {
            Error::NullPointer { common } => common,
            Error::InvalidFormat { common } => common,
            Error::InvalidHexDigit { common, ch: _ } => common,
            Error::Overflow { common } => common,
            Error::InvalidUTF8 { common } => common,
        }
    }

    /// The causal predecessor, if one was attached.
    pub open spec fn source_of(self) -> Option<Box<Error>> {
        self.common_of().source
    }

    /// The diagnostic trace snapshot, if one was captured.
    pub open spec fn trace_of(self) -> Option<String> {
        self.common_of().backtrace
    }

    /// The stable numeric code of this variant: one fixed integer per
    /// variant, independent of the payload.
    pub open spec fn code_spec(self) -> u32 {
        match self {
            Error::NullPointer { common: _ } => 1,
            Error::InvalidFormat { common: _ } => 2,
            Error::InvalidHexDigit { common: _, ch: _ } => 3,
            Error::Overflow { common: _ } => 4,
            Error::InvalidUTF8 { common: _ } => 5,
        }
    }

    /// The display message of this variant; for `InvalidHexDigit` it ends
    /// with the offending character, all other variants have a fixed text.
    pub open spec fn message_spec(self) -> Seq<char> {
        match self {
            Error::NullPointer { common: _ } => "Null pointer"@,
            Error::InvalidFormat { common: _ } => "Invalid format"@,
            Error::InvalidHexDigit { common: _, ch } => "Invalid hex digit: "@ + seq![ch],
            Error::Overflow { common: _ } => "Overflow"@,
            Error::InvalidUTF8 { common: _ } => "Invalid UTF-8"@,
        }
    }

    /// Shape of every freshly constructed error: no cause attached, and a
    /// trace captured at the moment of construction.
    pub open spec fn is_leaf(self) -> bool {
        self.source_of() is None && self.trace_of() is Some
    }
}

/// Relies on `std::backtrace::Backtrace::capture`: a best-effort snapshot of
/// the current call stack, rendered to text.  Its content depends on the
/// process environment, so nothing is promised of it.
#[verifier::external_body]
fn capture_trace() -> String {
    let trace = std::backtrace::Backtrace::capture();
    format!("{}", trace)
}

impl Error {
    /// A fresh `NullPointer` error with no cause and a trace captured now.
    pub fn null_pointer() -> (r: Error)
        ensures
            r is NullPointer,
            r.is_leaf(),
    {
        Error::NullPointer {
            common: ErrorCommon { source: None, backtrace: Some(capture_trace()) },
        }
    }

    /// A fresh `InvalidFormat` error with no cause and a trace captured now.
    pub fn invalid_format() -> (r: Error)
        ensures
            r is InvalidFormat,
            r.is_leaf(),
    {
        Error::InvalidFormat {
            common: ErrorCommon { source: None, backtrace: Some(capture_trace()) },
        }
    }

    /// A fresh `InvalidHexDigit` error recording the offending character,
    /// with no cause and a trace captured now.
    pub fn invalid_hex_digit(ch: char) -> (r: Error)
        ensures
            r is InvalidHexDigit,
            r->ch == ch,
            r.is_leaf(),
    {
        Error::InvalidHexDigit {
            common: ErrorCommon { source: None, backtrace: Some(capture_trace()) },
            ch,
        }
    }

    /// A fresh `Overflow` error with no cause and a trace captured now.
    pub fn overflow() -> (r: Error)
        ensures
            r is Overflow,
            r.is_leaf(),
    {
        Error::Overflow {
            common: ErrorCommon { source: None, backtrace: Some(capture_trace()) },
        }
    }

    /// A fresh `InvalidUTF8` error with no cause and a trace captured now.
    pub fn invalid_utf8() -> (r: Error)
        ensures
            r is InvalidUTF8,
            r.is_leaf(),
    {
        Error::InvalidUTF8 {
            common: ErrorCommon { source: None, backtrace: Some(capture_trace()) },
        }
    }
}

impl Error {
    /// Attaches a causal predecessor: the same variant and trace, now
    /// owning `cause` as its source.  Chaining is always this explicit
    /// composition; no constructor attaches a cause on its own.
    pub fn with_cause(self, cause: Error) -> (r: Error)
        ensures
            r.code_spec() == self.code_spec(),
            r.message_spec() == self.message_spec(),
            r.trace_of() == self.trace_of(),
            (r.source_of() matches Some(c) && *c == cause),
    {
        match self {
            Error::NullPointer { common } => {
                Error::NullPointer { common: attach_cause(common, cause) }
            },
            Error::InvalidFormat { common } => {
                Error::InvalidFormat { common: attach_cause(common, cause) }
            },
            Error::InvalidHexDigit { common, ch } => {
                Error::InvalidHexDigit { common: attach_cause(common, cause), ch }
            },
            Error::Overflow { common } => {
                Error::Overflow { common: attach_cause(common, cause) }
            },
            Error::InvalidUTF8 { common } => {
                Error::InvalidUTF8 { common: attach_cause(common, cause) }
            },
        }
    }

    /// A value equal to this error in every field, cause chain included.
    /// Duplication is what lets the boundary hand out a cause as a fresh
    /// owned handle without giving up the parent's own copy.
    pub fn duplicate(&self) -> (r: Error)
        ensures
            r == *self,
        decreases *self,
    {
        match self {
            Error::NullPointer { common } => {
                Error::NullPointer { common: duplicate_common(common) }
            },
            Error::InvalidFormat { common } => {
                Error::InvalidFormat { common: duplicate_common(common) }
            },
            Error::InvalidHexDigit { common, ch } => {
                Error::InvalidHexDigit { common: duplicate_common(common), ch: *ch }
            },
            Error::Overflow { common } => {
                Error::Overflow { common: duplicate_common(common) }
            },
            Error::InvalidUTF8 { common } => {
                Error::InvalidUTF8 { common: duplicate_common(common) }
            },
        }
    }
}

/// The same payload with `cause` installed as the source, keeping the trace.
fn attach_cause(common: ErrorCommon, cause: Error) -> (r: ErrorCommon)
    ensures
        (r.source matches Some(c) && *c == cause),
        r.backtrace == common.backtrace,
{
    ErrorCommon { source: Some(Box::new(cause)), backtrace: common.backtrace }
}

/// A field-for-field copy of a shared payload, duplicating the cause chain.
fn duplicate_common(common: &ErrorCommon) -> (r: ErrorCommon)
    ensures
        r == *common,
    decreases *common,
{
    ErrorCommon {
        source: match &common.source {
            None => None,
            Some(cause) => Some(Box::new(cause.duplicate())),
        },
        backtrace: match &common.backtrace {
            None => None,
            Some(trace) => Some(trace.clone()),
        },
    }
}

/// The stable numeric code of an error: a total function of the variant
/// alone, so querying it any number of times on the same value always
/// returns the same code.
pub fn error_code(error: &Error) -> (r: u32)
    ensures
        r == error.code_spec(),
{
    match error {
        Error::NullPointer { common: _ } => 1,
        Error::InvalidFormat { common: _ } => 2,
        Error::InvalidHexDigit { common: _, ch: _ } => 3,
        Error::Overflow { common: _ } => 4,
        Error::InvalidUTF8 { common: _ } => 5,
    }
}

/// Relies on `char`'s `Display` through `format!`: rendering a single
/// character yields exactly that one character.
#[verifier::external_body]
fn char_to_text(c: char) -> (r: String)
    ensures
        r@ == seq![c],
{
    format!("{}", c)
}

/// The display message of an error: a total function, a fixed text per
/// variant, except that `InvalidHexDigit` ends with the offending character.
pub fn error_message(error: &Error) -> (r: String)
    ensures
        r@ == error.message_spec(),
{
    match error {
        Error::NullPointer { common: _ } => String::from_str("Null pointer"),
        Error::InvalidFormat { common: _ } => String::from_str("Invalid format"),
        Error::InvalidHexDigit { common: _, ch } => {
            let tail = char_to_text(*ch);
            String::from_str("Invalid hex digit: ").concat(tail.as_str())
        },
        Error::Overflow { common: _ } => String::from_str("Overflow"),
        Error::InvalidUTF8 { common: _ } => String::from_str("Invalid UTF-8"),
    }
}

/// The stored trace by reference: nothing is recomputed or mutated.
pub fn error_backtrace(error: &Error) -> (r: &Option<String>)
    ensures
        *r == error.trace_of(),
{
    match error {
        Error::NullPointer { common } => &common.backtrace,
        Error::InvalidFormat { common } => &common.backtrace,
        Error::InvalidHexDigit { common, ch: _ } => &common.backtrace,
        Error::Overflow { common } => &common.backtrace,
        Error::InvalidUTF8 { common } => &common.backtrace,
    }
}

/// The stored cause by reference, without transferring ownership.
pub fn error_source(error: &Error) -> (r: &Option<Box<Error>>)
    ensures
        *r == error.source_of(),
{
    match error {
        Error::NullPointer { common } => &common.source,
        Error::InvalidFormat { common } => &common.source,
        Error::InvalidHexDigit { common, ch: _ } => &common.source,
        Error::Overflow { common } => &common.source,
        Error::InvalidUTF8 { common } => &common.source,
    }
}

/// The trace as a fresh owned text, or `None` if none was captured: what
/// the boundary's backtrace accessor writes through its out-parameter.
pub fn error_backtrace_text(error: &Error) -> (r: Option<String>)
    ensures
        r == error.trace_of(),
{
    match error_backtrace(error) {
        None => None,
        Some(trace) => Some(trace.clone()),
    }
}

/// A fresh duplicate of the cause, or `None` if no cause is attached: what
/// the boundary's cause accessor hands out.  The parent keeps its own
/// chain, so no two owners ever share one allocation.
pub fn error_cause_duplicate(error: &Error) -> (r: Option<Error>)
    ensures
        (r is Some <==> error.source_of() is Some),
        (r matches Some(c) ==> error.source_of() matches Some(s) && c == *s),
{
    match error_source(error) {
        None => None,
        Some(cause) => Some(cause.duplicate()),
    }
}

/// Querying the code is idempotent: any two results that `error_code`'s
/// contract admits for the same live error are the same value.
pub proof fn lemma_code_idempotent(error: Error, first: u32, second: u32)
    requires
        first == error.code_spec(),
        second == error.code_spec(),
    ensures
        first == second,
{
}

} // verus!

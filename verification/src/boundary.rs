//! The decision logic of the boundary entry point, over plain values.
//!
//! The raw-pointer surface outside the library turns its pointers into the
//! plain inputs here (`None` for a null text pointer, a flag for each
//! nullable out-parameter), calls [`parse_hex`], and writes the reply's
//! fields back through the pointers.  Everything the entry point decides —
//! validation order, which error is produced, when a handle is materialized
//! at all — is stated and proved here.

use vstd::prelude::*;
use crate::error::Error;
use crate::hex::{digit_failure_at, hex_outcome, hex_value, parsehex, strip_prefix};
use vstd::utf8::{decode_utf8, valid_utf8};

verus! {

/// Everything a boundary entry point hands back: the authoritative status
/// (0 for success), the parsed value on success, and, best-effort, an
/// error object the caller may take ownership of.
pub struct BoundaryReply {
    pub status: u32,
    pub value: Option<u8>,
    pub error: Option<Error>,
}

/// The input text as the boundary sees it: `None` for an absent pointer,
/// otherwise the pointed-to bytes.
pub open spec fn text_bytes(text: Option<&[u8]>) -> Option<Seq<u8>> {
    match text {
        None => None,
        Some(b) => Some(b@),
    }
}

/// The status a parse request ends in, following the validation order of
/// the entry point: a missing result slot is rejected first, then missing
/// text, then text that is not valid UTF-8, and only then does digit-level
/// parsing decide.
pub open spec fn boundary_status(text: Option<Seq<u8>>, result_present: bool) -> u32 {
    if !result_present {
        1
    } else {
        match text {
            None => 1,
            Some(b) => if !valid_utf8(b) {
                5
            } else {
                hex_outcome(strip_prefix(decode_utf8(b)))
            },
        }
    }
}

/// Relies on `core::str::from_utf8`: it succeeds exactly on valid UTF-8
/// and returns the text those bytes encode.
#[verifier::external_body]
fn decode_text(bytes: &[u8]) -> (r: Option<&str>)
    ensures
        (r is Some <==> valid_utf8(bytes@)),
        (r matches Some(s) ==> s@ == decode_utf8(bytes@)),
{
    core::str::from_utf8(bytes).ok()
}

/// A failure reply: the error's code as the status, no value, and the
/// error itself only when the caller supplied somewhere to put it —
/// otherwise the error is dropped here and the code alone reports it.
fn fail_with(error: Error, err_present: bool) -> (r: BoundaryReply)
    ensures
        r.status == error.code_spec(),
        r.value is None,
        (r.error is Some <==> err_present),
        (r.error matches Some(e) ==> e == error),
{
    let status = crate::error::error_code(&error);
    BoundaryReply { status, value: None, error: if err_present { Some(error) } else { None } }
}

/// The parse operation as the boundary performs it, on plain values.
///
/// `result_present` and `err_present` say whether the caller supplied a
/// result slot and an error slot.  The status is authoritative and is
/// exactly `boundary_status`; a value is produced exactly on success; on
/// failure an error object exists exactly when the caller asked for one,
/// its code always equal to the status, freshly constructed with no cause
/// and a captured trace, and an `InvalidHexDigit` error always carries the
/// first offending character of the prefix-stripped text.
pub fn parse_hex(text: Option<&[u8]>, result_present: bool, err_present: bool) -> (r:
    BoundaryReply)
    ensures
        r.status == boundary_status(text_bytes(text), result_present),
        (r.status == 0 <==> r.value is Some),
        r.status == 0 ==> r.error is None,
        (r.value matches Some(v) ==> text matches Some(b) && v as nat == hex_value(
            strip_prefix(decode_utf8(b@)),
        )),
        r.status != 0 ==> (r.error is Some <==> err_present),
        (r.error matches Some(e) ==> e.code_spec() == r.status && e.is_leaf()),
        (r.error matches Some(e) ==> text matches Some(b) ==> (forall|i: int|
            (e is InvalidHexDigit && #[trigger] digit_failure_at(
                strip_prefix(decode_utf8(b@)),
                i,
            )) ==> e->ch == strip_prefix(decode_utf8(b@))[i])),
{
    if !result_present {
        return fail_with(Error::null_pointer(), err_present);
    }
    match text {
        None => fail_with(Error::null_pointer(), err_present),
        Some(bytes) => match decode_text(bytes) {
            None => fail_with(Error::invalid_utf8(), err_present),
            Some(s) => match parsehex(s) {
                Ok(value) => BoundaryReply { status: 0, value: Some(value), error: None },
                Err(error) => fail_with(error, err_present),
            },
        },
    }
}

} // verus!

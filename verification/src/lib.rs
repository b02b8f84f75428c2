//! A hex-string parser behind a C-callable boundary, together with the
//! error object model that carries failures across that boundary.
//!
//! The library itself works on plain values only: the raw-pointer surface
//! that hands opaque error handles to foreign callers lives outside it and
//! calls into the functions here.

pub mod boundary;
pub mod error;
pub mod hex;

pub use boundary::BoundaryReply;
pub use boundary::parse_hex;
pub use error::Error;
pub use error::ErrorCommon;
pub use error::error_backtrace;
pub use error::error_backtrace_text;
pub use error::error_cause_duplicate;
pub use error::error_code;
pub use error::error_message;
pub use error::error_source;
pub use hex::parsehex;

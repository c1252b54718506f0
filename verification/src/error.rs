//! The errors that the library raises.
use vstd::prelude::*;

verus! {

/// What kind of error it is.
#[derive(Clone, Copy, Debug, PartialEq, Eq, Structural)]
pub enum ErrorCode {
    ImapCommandFailed,
}

/// An error with its message.
#[derive(Debug, PartialEq, Eq)]
pub struct RustMailerError {
    pub message: String,
    pub code: ErrorCode,
}

/// Whether an error has the given message and code.
pub open spec fn is_error(error: RustMailerError, message: Seq<char>, code: ErrorCode) -> bool {
    error.message@ == message && error.code == code
}

} // verus!

//! The errors of the router commands.

use vstd::prelude::*;

verus! {

/// What went wrong, in a form that a caller can act on.
#[derive(Debug, Clone, Copy, PartialEq, Eq, Structural)]
pub enum ErrorCode {
    ModelLoadTimedOut,
    InternalError,
}

/// A failure of the router.
#[derive(Debug)]
pub struct LlamacppError {
    pub code: ErrorCode,
    pub message: String,
    pub details: Option<String>,
}

/// A failure of a command.
#[derive(Debug)]
pub enum ServerError {
    Llamacpp(LlamacppError),
    InvalidArgument(String),
}

/// The result of a command.
pub type ServerResult<T> = Result<T, ServerError>;

/// A failure of a command, as mathematical values.
pub ghost enum Failure {
    Router { code: ErrorCode, message: Seq<char>, details: Option<Seq<char>> },
    InvalidArgument(Seq<char>),
}

/// The text of an optional string.
pub open spec fn optional_string(s: Option<String>) -> Option<Seq<char>> {
    match s {
        Some(t) => Some(t@),
        None => None,
    }
}

impl View for ServerError {
    type V = Failure;

    open spec fn view(&self) -> Failure {
        match *self {
            ServerError::Llamacpp(e) => Failure::Router {
                code: e.code,
                message: e.message@,
                details: optional_string(e.details),
            },
            ServerError::InvalidArgument(message) => Failure::InvalidArgument(message@),
        }
    }
}

impl LlamacppError {
    /// A failure with its message and, where there are any, details.
    pub fn new(code: ErrorCode, message: String, details: Option<String>) -> (r: Self)
        ensures
            r.code == code,
            r.message == message,
            r.details == details,
    {
        LlamacppError { code, message, details }
    }
}

} // verus!

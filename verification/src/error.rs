//! Error values returned by the codecs.
use vstd::prelude::*;

verus! {

/// The list of the possible error kinds.
#[derive(Debug, Clone, Copy, PartialEq, Eq, Structural)]
pub enum ErrorKind {
    /// Input data is invalid.
    InvalidInput,
    /// Other errors (e.g., the input ended in the middle of a value).
    Other,
}

/// The error type of this crate. Its view is its kind.
#[derive(Debug, Clone, Copy, PartialEq, Eq)]
pub struct Error {
    kind: ErrorKind,
}

impl View for Error {
    type V = ErrorKind;

    closed spec fn view(&self) -> ErrorKind {
        self.kind
    }
}

impl Error {
    /// Makes an error of the given kind.
    pub fn new(kind: ErrorKind) -> (e: Self)
        ensures
            e@ == kind,
    {
        Error { kind }
    }

    /// An error of kind `InvalidInput`.
    pub fn invalid_input() -> (e: Self)
        ensures
            e@ == ErrorKind::InvalidInput,
    {
        Error { kind: ErrorKind::InvalidInput }
    }

    /// An error of kind `Other`.
    pub fn other() -> (e: Self)
        ensures
            e@ == ErrorKind::Other,
    {
        Error { kind: ErrorKind::Other }
    }

    /// Returns the kind of this error.
    pub fn kind(&self) -> (k: ErrorKind)
        ensures
            k == self@,
    {
        self.kind
    }
}

} // verus!

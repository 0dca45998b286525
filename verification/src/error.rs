//! The error type of tool operations.

use vstd::prelude::*;

verus! {

/// Errors returned by tool operations.
#[derive(Debug)]
pub enum Error {
    MissingField(String),
    Validation(String),
    Parse(String),
    Other(String),
}

/// The result of a tool operation.
pub type Result<T> = std::result::Result<T, Error>;

/// The variant of an [`Error`].
#[derive(Debug, Clone, Copy, PartialEq, Eq, Structural)]
pub enum ErrorKind {
    MissingField,
    Validation,
    Parse,
    Other,
}

impl View for Error {
    type V = (ErrorKind, Seq<char>);

    open spec fn view(&self) -> (ErrorKind, Seq<char>) {
        match self {
            Error::MissingField(m) => (ErrorKind::MissingField, m@),
            Error::Validation(m) => (ErrorKind::Validation, m@),
            Error::Parse(m) => (ErrorKind::Parse, m@),
            Error::Other(m) => (ErrorKind::Other, m@),
        }
    }
}

impl Error {
    /// A general error with the given message.
    pub fn new(msg: String) -> (e: Error)
        ensures
            e@ == (ErrorKind::Other, msg@),
    {
        Error::Other(msg)
    }

    /// The message carried by the error.
    pub fn message(&self) -> (m: &str)
        ensures
            m@ == self@.1,
    {
        match self {
            Error::MissingField(m) => m.as_str(),
            Error::Validation(m) => m.as_str(),
            Error::Parse(m) => m.as_str(),
            Error::Other(m) => m.as_str(),
        }
    }

    /// The text the error displays: `missing required field: ..`,
    /// `validation failed: ..`, `parse error: ..`, or the message itself.
    pub fn to_text(&self) -> (t: String)
        ensures
            t@ == display_text(self@),
    {
        match self {
            Error::MissingField(m) => crate::text::concat("missing required field: ", m.as_str()),
            Error::Validation(m) => crate::text::concat("validation failed: ", m.as_str()),
            Error::Parse(m) => crate::text::concat("parse error: ", m.as_str()),
            Error::Other(m) => m.clone(),
        }
    }
}

/// What an error with the given view displays.
pub open spec fn display_text(e: (ErrorKind, Seq<char>)) -> Seq<char> {
    match e.0 {
        ErrorKind::MissingField => "missing required field: "@ + e.1,
        ErrorKind::Validation => "validation failed: "@ + e.1,
        ErrorKind::Parse => "parse error: "@ + e.1,
        ErrorKind::Other => e.1,
    }
}

} // verus!

//! The error taxonomy: structural errors met while a response head is
//! parsed, and read errors met while a stream or a body is consumed.

use vstd::prelude::*;

verus! {

/// What went wrong while bytes were read from a stream or a body.
#[derive(Clone, Copy, Debug, PartialEq, Eq, Structural, Hash)]
pub enum IoErrorKind {
    /// The stream ended where a line was expected.
    UnexpectedEof,
    /// A line did not end with CRLF, or a parameter was not acceptable.
    InvalidInput,
    /// The data itself is wrong: text that is not UTF-8, a body shorter
    /// than announced, content that does not decode.
    InvalidData,
    /// The deadline of the request passed before the read was served.
    TimedOut,
}

/// A read error: its kind and a message for people.
#[derive(Debug)]
pub struct IoError {
    pub kind: IoErrorKind,
    pub message: String,
}

/// The mathematical value of an [`IoError`].
pub struct Fault {
    pub kind: IoErrorKind,
    pub message: Seq<char>,
}

impl View for IoError {
    type V = Fault;

    open spec fn view(&self) -> Fault {
        Fault { kind: self.kind, message: self.message@ }
    }
}

impl IoError {
    /// An error of the given kind with the given message.
    pub fn new(kind: IoErrorKind, message: &str) -> (e: IoError)
        ensures
            e@ == (Fault { kind, message: message@ }),
    {
        IoError { kind, message: message.to_owned() }
    }

    /// The kind of the error.
    pub fn kind(&self) -> (k: IoErrorKind)
        ensures
            k == self@.kind,
    {
        self.kind
    }

    /// The message of the error.
    pub fn message(&self) -> (m: &str)
        ensures
            m@ == self@.message,
    {
        self.message.as_str()
    }

    /// An error with the same kind and message.
    pub fn duplicate(&self) -> (e: IoError)
        ensures
            e@ == self@,
    {
        IoError { kind: self.kind, message: self.message.clone() }
    }
}

/// The kinds of error that end the construction of a response.
#[derive(Clone, Copy, Debug, PartialEq, Eq, Structural, Hash)]
pub enum ErrorKind {
    /// The status line is malformed.
    BadStatus,
    /// A header line is malformed.
    BadHeader,
    /// The transport failed; the read error is the source.
    Io,
}

/// A structural error: its kind, an optional message, and the read error
/// that caused it, if one did.
#[derive(Debug)]
pub struct Error {
    pub kind: ErrorKind,
    pub message: Option<String>,
    pub source: Option<IoError>,
}

/// The mathematical value of an [`Error`].
pub struct ErrorView {
    pub kind: ErrorKind,
    pub message: Option<Seq<char>>,
    pub source: Option<Fault>,
}

impl View for Error {
    type V = ErrorView;

    open spec fn view(&self) -> ErrorView {
        ErrorView {
            kind: self.kind,
            message: match self.message {
                Some(m) => Some(m@),
                None => None,
            },
            source: match self.source {
                Some(e) => Some(e@),
                None => None,
            },
        }
    }
}

impl ErrorKind {
    /// An error of this kind without a message.
    pub fn new(self) -> (e: Error)
        ensures
            e@ == (ErrorView { kind: self, message: None, source: None }),
    {
        Error { kind: self, message: None, source: None }
    }

    /// An error of this kind with a message.
    pub fn msg(self, message: &str) -> (e: Error)
        ensures
            e@ == (ErrorView { kind: self, message: Some(message@), source: None }),
    {
        Error { kind: self, message: Some(message.to_owned()), source: None }
    }
}

impl Error {
    /// The kind of the error.
    pub fn kind(&self) -> (k: ErrorKind)
        ensures
            k == self@.kind,
    {
        self.kind
    }

    /// The transport error that stands for a failed read.
    pub fn from_io(e: IoError) -> (r: Error)
        ensures
            r@ == (ErrorView { kind: ErrorKind::Io, message: None, source: Some(e@) }),
    {
        Error { kind: ErrorKind::Io, message: None, source: Some(e) }
    }
}

} // verus!

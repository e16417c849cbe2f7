//! The errors that parsing and evaluation report.

use vstd::prelude::*;

verus! {

/// What went wrong.
#[derive(Debug, Clone, Copy, PartialEq, Eq, Structural)]
pub enum ErrorKind {
    /// The parser rejected a malformed token sequence.
    WrongSyntax,
    /// A program could not be resolved.
    NotFound,
    /// The target of a redirection could not be opened.
    OpenFailed,
    /// A file could not be created.
    CreateFailed,
    /// The operating system refused to start or to await a process, or the
    /// argument of a builtin was malformed.
    ExecutionFailed,
}

/// An error: its kind and a message for the user.
#[derive(Debug, Clone, PartialEq, Eq)]
pub struct Error {
    kind: ErrorKind,
    message: String,
}

impl Error {
    /// The kind of this error, in contracts.
    pub closed spec fn spec_kind(&self) -> ErrorKind {
        self.kind
    }

    /// The message of this error, in contracts.
    pub closed spec fn spec_message(&self) -> Seq<char> {
        self.message@
    }

    /// An error of the given kind with the given message.
    pub fn new(kind: ErrorKind, message: String) -> (error: Self)
        ensures
            error.spec_kind() == kind,
            error.spec_message() == message@,
    {
        Self { kind, message }
    }

    /// The message.
    pub fn message(&self) -> (message: &str)
        ensures
            message@ == self.spec_message(),
    {
        self.message.as_str()
    }

    /// The kind.
    pub fn kind(&self) -> (kind: &ErrorKind)
        ensures
            *kind == self.spec_kind(),
    {
        &self.kind
    }

    /// The message, as an owned string.
    pub fn to_string(&self) -> (message: String)
        ensures
            message@ == self.spec_message(),
    {
        self.message.clone()
    }
}

} // verus!

//! Errors that planning reports.

use vstd::prelude::*;

verus! {

/// What kind of fault an error reports.
#[derive(Clone, Copy, Debug, PartialEq, Eq, Hash)]
pub enum ErrorKind {
    /// The statement asks for something that is switched off or not supported.
    Unimplemented,
    /// The statement's arguments do not fit together.
    BadArguments,
    /// The statement breaks a rule of the language.
    SemanticError,
    /// The planner met something it cannot handle yet.
    Internal,
    /// A function name is not known.
    UnknownFunction,
    /// Any other fault, reported by a part of the planner outside this crate, under its code.
    Other(u16),
}

/// An error with its message.
#[derive(Clone, Debug, PartialEq, Eq, Hash)]
pub struct ErrorCode {
    pub kind: ErrorKind,
    pub message: String,
}

/// The contents of an [`ErrorCode`].
pub ghost struct ErrorView {
    pub kind: ErrorKind,
    pub message: Seq<char>,
}

impl View for ErrorCode {
    type V = ErrorView;

    open spec fn view(&self) -> ErrorView {
        ErrorView { kind: self.kind, message: self.message@ }
    }
}

impl ErrorCode {
    /// An error with a fixed message.
    pub fn new(kind: ErrorKind, message: &str) -> (e: ErrorCode)
        ensures
            e@ == (ErrorView { kind, message: message@ }),
    {
        ErrorCode { kind, message: message.to_owned() }
    }
}

/// The contents of an error are its kind and the characters of its message.
pub proof fn law_error_contents(e: ErrorCode)
    ensures
        e@.kind == e.kind,
        e@.message == e.message@,
{
}

} // verus!

//! The errors the extension raises to CFML: a message, and for a few of them a
//! CFML exception type a caller can catch by name.

use vstd::prelude::*;

verus! {

/// Which CFML exception type an error is raised as.
#[derive(Clone, Copy, Debug, PartialEq, Eq, Structural)]
pub enum ErrorKind {
    /// An ordinary error.
    General,
    /// `browser.javascript`: the page's JavaScript threw or could not run.
    Javascript,
    /// `browser.timeout`: a wait ran out of time.
    Timeout,
}

/// An error raised to CFML.
pub struct CfmlError {
    pub kind: ErrorKind,
    pub message: String,
}

impl CfmlError {
    /// An ordinary error with this message.
    pub fn new(message: String) -> (e: CfmlError)
        ensures
            e.kind == ErrorKind::General,
            e.message@ == message@,
    {
        CfmlError { kind: ErrorKind::General, message }
    }

    /// An error of the given kind with this message.
    pub fn custom(kind: ErrorKind, message: String) -> (e: CfmlError)
        ensures
            e.kind == kind,
            e.message@ == message@,
    {
        CfmlError { kind, message }
    }
}

} // verus!

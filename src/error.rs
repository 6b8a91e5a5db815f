//! Failures a source can report in place of a value.

use vstd::prelude::*;

verus! {

/// The cause category of a failure.
#[derive(PartialEq, Eq, Structural, Clone, Copy, Debug)]
pub enum ErrorKind {
    /// No poll of the source has finished yet.
    Pending,
    /// A required credential is absent from the configuration.
    ConfigurationMissing,
    /// A command-line tool or script exited with an error or could not run.
    ExternalProcessFailure,
    /// Timeout, refused connection or another transport error.
    NetworkFailure,
    /// The credentials were rejected by a pre-check.
    AuthenticationFailure,
    /// A response that does not have the expected shape.
    UnexpectedResponseShape,
    /// No items where at least one was expected.
    EmptyResult,
    /// The source cannot be read on this platform.
    Unsupported,
}

/// A failure: its category and a message for the user.
pub struct SourceError {
    pub kind: ErrorKind,
    pub message: String,
}

impl SourceError {
    pub fn new(kind: ErrorKind, message: String) -> (r: SourceError)
        ensures
            r.kind == kind,
            r.message@ == message@,
    {
        SourceError { kind, message }
    }

    /// A failure whose message is `context: detail`.
    pub fn with_detail(kind: ErrorKind, context: &str, detail: &str) -> (r: SourceError)
        ensures
            r.kind == kind,
            r.message@ == context@ + ": "@ + detail@,
    {
        let mut message = context.to_owned();
        message.append(": ");
        message.append(detail);
        SourceError { kind, message }
    }

    /// A failure whose message is the given text.
    pub fn from_text(kind: ErrorKind, message: &str) -> (r: SourceError)
        ensures
            r.kind == kind,
            r.message@ == message@,
    {
        SourceError { kind, message: message.to_owned() }
    }
}

} // verus!

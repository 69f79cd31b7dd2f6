//! The error type of the library.

use vstd::prelude::*;
use vstd::string::StringExecFns;

verus! {

/// What went wrong.
#[derive(Debug, Clone, Copy, PartialEq, Eq, Structural)]
pub enum ErrorKind {
    /// Date text that is not a date.
    Parse,
    /// A value of the right shape that cannot be used: an empty name, a date that the
    /// calendar does not have, a missing argument.
    Validation,
    /// No habit of that name.
    NotFound,
    /// A habit of that name is there already.
    Duplicate,
    /// The habit is marked for that date already.
    AlreadyMarked,
    /// The habit is not marked for that date.
    NotMarked,
    /// The store failed.
    Storage,
}

/// An error: its kind, and a message for the user.
#[derive(Debug)]
pub struct CliError {
    pub kind: ErrorKind,
    pub message: String,
}

/// Whether `r` is a failure of the kind `kind`.
pub open spec fn fails_with<T>(r: Result<T, CliError>, kind: ErrorKind) -> bool {
    match r {
        Ok(_) => false,
        Err(e) => e.kind == kind,
    }
}

impl CliError {
    /// A validation error with the message `err`.
    pub fn new(err: &str) -> (e: CliError)
        ensures
            e.kind == ErrorKind::Validation,
            e.message@ == err@,
    {
        CliError { kind: ErrorKind::Validation, message: String::from_str(err) }
    }

    /// An error of the given kind with the given message.
    pub fn with_kind(kind: ErrorKind, message: String) -> (e: CliError)
        ensures
            e.kind == kind,
            e.message == message,
    {
        CliError { kind, message }
    }

    /// An error of the given kind whose message is `before`, `subject` and `after` in a row.
    pub fn about(kind: ErrorKind, before: &str, subject: &str, after: &str) -> (e: CliError)
        ensures
            e.kind == kind,
            e.message@ == before@ + subject@ + after@,
    {
        let message = String::from_str(before).concat(subject).concat(after);
        CliError { kind, message }
    }

    /// The message.
    pub fn to_string(&self) -> (s: String)
        ensures
            s@ == self.message@,
    {
        self.message.clone()
    }
}

} // verus!

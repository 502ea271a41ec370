//! The errors that the counter reports.

use vstd::prelude::*;
use vstd::string::*;

verus! {

/// What went wrong, with a sentence that says more.
#[derive(Debug, PartialEq, Eq)]
pub enum CommitCounterError {
    /// The file system refused an access.
    IoError(String),
    /// The version-control gateway failed.
    GitError(String),
    /// A stored or recorded count is not a number.
    ParseError(String),
    /// An input was rejected before any work was done.
    ValidationError(String),
}

impl CommitCounterError {
    /// The sentence that the error carries.
    pub open spec fn detail(&self) -> Seq<char> {
        match self {
            CommitCounterError::IoError(s) => s@,
            CommitCounterError::GitError(s) => s@,
            CommitCounterError::ParseError(s) => s@,
            CommitCounterError::ValidationError(s) => s@,
        }
    }

    /// The words that name the kind of error in front of its sentence.
    pub open spec fn heading(&self) -> Seq<char> {
        match self {
            CommitCounterError::IoError(_) => "I/O error: "@,
            CommitCounterError::GitError(_) => "Git error: "@,
            CommitCounterError::ParseError(_) => "Parse error: "@,
            CommitCounterError::ValidationError(_) => "Validation error: "@,
        }
    }

    /// The error as it is shown to a user.
    pub open spec fn text(&self) -> Seq<char> {
        self.heading() + self.detail()
    }

    /// The error as it is shown to a user: its kind, a colon, its sentence.
    pub fn message(&self) -> (r: String)
        ensures
            r@ == self.text(),
    {
        match self {
            CommitCounterError::IoError(s) => String::from_str("I/O error: ").concat(s.as_str()),
            CommitCounterError::GitError(s) => String::from_str("Git error: ").concat(s.as_str()),
            CommitCounterError::ParseError(s) => String::from_str("Parse error: ").concat(
                s.as_str(),
            ),
            CommitCounterError::ValidationError(s) => String::from_str("Validation error: ").concat(
                s.as_str(),
            ),
        }
    }
}

} // verus!

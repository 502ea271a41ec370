//! Per-branch, per-type sequence numbers for commit messages.
//!
//! A commit subject is formatted as `[branch] [TYPE count : message]`, where
//! the count is the number of the commit among those of its type on its
//! branch. The counts of a branch are kept in a small text file; they can also
//! be recovered from the subjects of the branch's history.

pub mod casing;
pub mod commit_types;
pub mod config;
pub mod counter;
pub mod error;
pub mod git;
pub mod history;
pub mod number;
pub mod paths;
pub mod request;
pub mod store;
pub mod text;

pub use commit_types::CommitType;
pub use config::Config;
pub use counter::{CommitCounter, PendingCommit};
pub use error::CommitCounterError;
pub use git::GitOperations;
pub use store::CounterStore;

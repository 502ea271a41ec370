//! The gateway to version control, and what the answers of the `git` command
//! mean.

use std::path::PathBuf;
use vstd::prelude::*;
use vstd::string::*;
use crate::error::CommitCounterError;
use crate::paths::{final_component, last_component, path_of, path_spelled};
use crate::text::{from_chars, lines, split_lines, texts, to_chars, trim, trimmed};

verus! {

/// What the counter needs from version control. Nothing is promised of an
/// implementation: each operation may succeed or fail as it will.
pub trait GitOperations {
    /// The name of the branch that is checked out.
    fn get_branch(&self) -> Result<String, CommitCounterError>;

    /// The top directory of the working tree.
    fn get_root_dir(&self) -> Result<PathBuf, CommitCounterError>;

    /// Creates a commit with the subject `message`.
    fn commit(&self, message: &str) -> Result<(), CommitCounterError>;

    /// The subjects of the commits of the first-parent history.
    fn read_first_parent_history(&self) -> Result<Vec<String>, CommitCounterError>;
}

/// The sentence of the error for a root directory without a name.
pub open spec fn project_name_failure() -> Seq<char> {
    "Cannot determine project name"@
}

/// The sentence of the error for a question asked outside a repository.
pub open spec fn repository_failure() -> Seq<char> {
    "Not inside a Git repository"@
}

/// The sentence of the error for a commit that was refused.
pub open spec fn commit_failure() -> Seq<char> {
    "Commit failed"@
}

/// The sentence of the error for a history that cannot be read.
pub open spec fn history_failure() -> Seq<char> {
    "Failed to read git history"@
}

/// Whether `r` is the gateway's error with the sentence `sentence`.
pub open spec fn is_git_error<T>(r: Result<T, CommitCounterError>, sentence: Seq<char>) -> bool {
    r matches Err(CommitCounterError::GitError(s)) && s@ == sentence
}

/// `line` without a carriage return at its end.
pub open spec fn without_carriage_return(line: Seq<char>) -> Seq<char> {
    if line.len() > 0 && line.last() == '\r' {
        line.drop_last()
    } else {
        line
    }
}

/// The subjects in the output of the log, one to a line. A line ends with a
/// line feed, or with a carriage return and a line feed; the last line need
/// not end at all, and no empty subject follows the last line end.
pub open spec fn subject_lines(output: Seq<char>) -> Seq<Seq<char>> {
    let pieces = lines(output);
    let ended = pieces.drop_last().map_values(|l: Seq<char>| without_carriage_return(l));
    if pieces.last().len() == 0 {
        ended
    } else {
        ended.push(pieces.last())
    }
}

/// The project name, given the last component of the root directory.
pub fn project_name_from(component: Option<String>) -> (r: Result<String, CommitCounterError>)
    ensures
        match component {
            Some(name) => r == Ok::<String, CommitCounterError>(name),
            None => is_git_error(r, project_name_failure()),
        },
{
    match component {
        Some(name) => Ok(name),
        None => Err(
            CommitCounterError::GitError(String::from_str("Cannot determine project name")),
        ),
    }
}

/// The project name, given what the gateway answered when it was asked for
/// the root directory: the name of that directory. Fails as the gateway
/// failed, or because the root has no name.
pub fn project_name_of_root(root: Result<PathBuf, CommitCounterError>) -> (r: Result<
    String,
    CommitCounterError,
>)
    ensures
        match root {
            Ok(path) => match last_component(path) {
                Some(name) => r matches Ok(s) && s@ == name,
                None => is_git_error(r, project_name_failure()),
            },
            Err(e) => r == Err::<String, CommitCounterError>(e),
        },
{
    match root {
        Ok(path) => project_name_from(final_component(&path)),
        Err(e) => Err(e),
    }
}

/// The name of the project: the name of the root directory of the working
/// tree, as `project_name_of_root` gives it for the gateway's answer.
pub fn get_project_name(git_ops: &dyn GitOperations) -> (r: Result<String, CommitCounterError>) {
    project_name_of_root(git_ops.get_root_dir())
}

/// The branch, given whether `git rev-parse --abbrev-ref HEAD` succeeded and
/// what it printed.
pub fn branch_from_output(succeeded: bool, output: &str) -> (r: Result<String, CommitCounterError>)
    ensures
        succeeded ==> (r matches Ok(branch) && branch@ == trimmed(output@)),
        !succeeded ==> is_git_error(r, repository_failure()),
{
    if succeeded {
        Ok(trim(output))
    } else {
        Err(CommitCounterError::GitError(String::from_str("Not inside a Git repository")))
    }
}

/// The root directory, given whether `git rev-parse --show-toplevel`
/// succeeded and what it printed: the path that the output spells, without
/// the whitespace around it.
pub fn root_dir_from_output(succeeded: bool, output: &str) -> (r: Result<
    PathBuf,
    CommitCounterError,
>)
    ensures
        succeeded ==> r == Ok::<PathBuf, CommitCounterError>(path_spelled(trimmed(output@))),
        !succeeded ==> is_git_error(r, repository_failure()),
{
    if succeeded {
        let bare = trim(output);
        Ok(path_of(bare.as_str()))
    } else {
        Err(CommitCounterError::GitError(String::from_str("Not inside a Git repository")))
    }
}

/// The result of a commit, given whether `git commit` succeeded.
pub fn commit_outcome(succeeded: bool) -> (r: Result<(), CommitCounterError>)
    ensures
        succeeded ==> r is Ok,
        !succeeded ==> is_git_error(r, commit_failure()),
{
    if succeeded {
        Ok(())
    } else {
        Err(CommitCounterError::GitError(String::from_str("Commit failed")))
    }
}

/// `line` without a carriage return at its end.
fn strip_carriage_return(line: &str) -> (r: String)
    ensures
        r@ == without_carriage_return(line@),
{
    let chars = to_chars(line);
    let n: usize = chars.len();
    if n > 0 && chars[n - 1] == '\r' {
        let r = from_chars(&chars, 0, n - 1);
        assert(chars@.subrange(0, n - 1) == chars@.drop_last());
        r
    } else {
        let r = from_chars(&chars, 0, n);
        assert(chars@.subrange(0, n as int) == chars@);
        r
    }
}

/// The subjects of the history, given whether `git log` succeeded and what it
/// printed, one subject to a line.
pub fn history_from_output(succeeded: bool, output: &str) -> (r: Result<
    Vec<String>,
    CommitCounterError,
>)
    ensures
        succeeded ==> (r matches Ok(subjects) && texts(subjects@) == subject_lines(output@)),
        !succeeded ==> is_git_error(r, history_failure()),
{
    if !succeeded {
        return Err(CommitCounterError::GitError(String::from_str("Failed to read git history")));
    }
    let pieces = split_lines(output);
    proof {
        crate::text::lemma_lines_len(output@);
    }
    let n: usize = pieces.len();
    let ghost ended = lines(output@).drop_last().map_values(
        |l: Seq<char>| without_carriage_return(l),
    );
    let mut subjects: Vec<String> = Vec::new();
    let mut i: usize = 0;
    while i < n - 1
        invariant
            i <= n - 1,
            n == pieces.len(),
            n >= 1,
            texts(pieces@) == lines(output@),
            ended == lines(output@).drop_last().map_values(
                |l: Seq<char>| without_carriage_return(l),
            ),
            texts(subjects@) == ended.take(i as int),
        decreases n - 1 - i,
    {
        let ghost before = texts(subjects@);
        assert(texts(pieces@)[i as int] == pieces@[i as int]@);
        let subject = strip_carriage_return(pieces[i].as_str());
        subjects.push(subject);
        assert(texts(subjects@) == before.push(subject@));
        assert(ended.take(i + 1) == ended.take(i as int).push(ended[i as int]));
        i = i + 1;
    }
    assert(ended.take(i as int) == ended);
    assert(texts(pieces@)[n - 1] == pieces@[n - 1]@);
    if pieces[n - 1].as_str().unicode_len() > 0 {
        let ghost before = texts(subjects@);
        let last = pieces[n - 1].clone();
        subjects.push(last);
        assert(texts(subjects@) == before.push(last@));
    }
    Ok(subjects)
}

} // verus!

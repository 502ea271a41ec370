//! The scope of a counter: project, branch, and the file that holds the
//! counts.

use std::path::{Path, PathBuf};
use vstd::prelude::*;
use vstd::string::*;
use crate::error::CommitCounterError;
use crate::git::{get_project_name, GitOperations};
use crate::paths::{boxed, boxed_path, joined, pushed};
use crate::text::{push_char, to_chars};

verus! {

/// The name of the directory, below the user's configuration directory, that
/// holds the counter files.
pub const STORAGE_DIR_NAME: &'static str = "git_commit_counter";

/// `branch` with every `/` replaced by `_`.
pub open spec fn sanitized(branch: Seq<char>) -> Seq<char> {
    branch.map_values(|c: char| if c == '/' { '_' } else { c })
}

/// The name of the counter file of a scope.
pub open spec fn file_name(project: Seq<char>, branch: Seq<char>) -> Seq<char> {
    project + "_"@ + sanitized(branch) + ".counts"@
}

/// The path of the counter file of a scope whose files lie in `storage_dir`:
/// the storage directory extended by the name of the counter file.
pub open spec fn counter_path_in(
    storage_dir: PathBuf,
    project: Seq<char>,
    branch: Seq<char>,
) -> Box<Path> {
    boxed_path(pushed(storage_dir, file_name(project, branch)))
}

/// The sentence of the error for a missing configuration directory.
pub open spec fn storage_failure() -> Seq<char> {
    "Home directory not found"@
}

/// A sanitized branch name has no `/`, so it names no directory; it is as
/// long as the branch name and differs from it only where that has a `/`.
pub proof fn lemma_sanitized_is_safe(branch: Seq<char>)
    ensures
        sanitized(branch).len() == branch.len(),
        forall|i: int| 0 <= i < branch.len() ==> #[trigger] sanitized(branch)[i] != '/',
        forall|i: int|
            0 <= i < branch.len() && branch[i] != '/' ==> #[trigger] sanitized(branch)[i]
                == branch[i],
{
}

/// The user's configuration directory, from `dirs::config_dir`, which reads
/// the environment and may find none.
#[verifier::external_body]
fn platform_config_dir() -> Option<PathBuf> {
    dirs::config_dir()
}

/// Configuration for the Git Commit Counter
pub struct Config {
    project_name: String,
    branch_name: String,
    counter_file_name: String,
    counter_file_path: Box<Path>,
}

impl Config {
    /// The project of the scope.
    pub closed spec fn project(&self) -> Seq<char> {
        self.project_name@
    }

    /// The branch of the scope, as version control names it.
    pub closed spec fn branch(&self) -> Seq<char> {
        self.branch_name@
    }

    /// The path of the counter file.
    pub closed spec fn counter_path(&self) -> &Path {
        &*self.counter_file_path
    }

    /// The name of the counter file, which is the last component of its path.
    pub closed spec fn counter_file(&self) -> Seq<char> {
        self.counter_file_name@
    }

    /// The invariant of a configuration: the counter file is named after the
    /// scope.
    pub open spec fn wf(&self) -> bool {
        self.counter_file() == file_name(self.project(), self.branch())
    }

    /// The directory that holds the counter files, given the user's
    /// configuration directory. Fails with an `IoError` exactly when there is
    /// no configuration directory.
    pub fn storage_dir(base: Option<PathBuf>) -> (r: Result<PathBuf, CommitCounterError>)
        ensures
            match base {
                Some(dir) => r == Ok::<PathBuf, CommitCounterError>(
                    pushed(dir, STORAGE_DIR_NAME@),
                ),
                None => r matches Err(CommitCounterError::IoError(s)) && s@ == storage_failure(),
            },
    {
        match base {
            Some(dir) => Ok(joined(dir, STORAGE_DIR_NAME)),
            None => Err(CommitCounterError::IoError(String::from_str("Home directory not found"))),
        }
    }

    /// The directory that holds the counter files on this machine.
    pub fn default_storage_dir() -> (r: Result<PathBuf, CommitCounterError>)
        ensures
            r matches Err(e) ==> (e matches CommitCounterError::IoError(s) && s@
                == storage_failure()),
    {
        Config::storage_dir(platform_config_dir())
    }

    /// The configuration of the scope `project_name`, `branch_name`, with its
    /// counter file in `storage_dir`.
    pub fn for_scope(project_name: String, branch_name: String, storage_dir: PathBuf) -> (r:
        Config)
        ensures
            r.wf(),
            r.project() == project_name@,
            r.branch() == branch_name@,
            r.counter_path() == &*counter_path_in(storage_dir, project_name@, branch_name@),
    {
        let counter_file_name = Config::file_name_for(
            project_name.as_str(),
            branch_name.as_str(),
        );
        let counter_file_path = boxed(joined(storage_dir, counter_file_name.as_str()));
        Config { project_name, branch_name, counter_file_name, counter_file_path }
    }

    /// The configuration of the scope `project_name`, `branch_name`, given the
    /// user's configuration directory: the counter file lies in the storage
    /// directory below it. Fails with an `IoError` exactly when there is no
    /// configuration directory.
    pub fn in_config_dir(project_name: String, branch_name: String, base: Option<PathBuf>) -> (r:
        Result<Config, CommitCounterError>)
        ensures
            match base {
                Some(dir) => r matches Ok(config) && config.wf() && config.project()
                    == project_name@ && config.branch() == branch_name@
                    && config.counter_path() == &*counter_path_in(
                    pushed(dir, STORAGE_DIR_NAME@),
                    project_name@,
                    branch_name@,
                ),
                None => r matches Err(CommitCounterError::IoError(s)) && s@ == storage_failure(),
            },
    {
        match Config::storage_dir(base) {
            Ok(dir) => Ok(Config::for_scope(project_name, branch_name, dir)),
            Err(e) => Err(e),
        }
    }

    /// The configuration for the branch `branch_name`, given what was
    /// answered to the question for the project. A failure is handed on as it
    /// is. For a project, the user's configuration directory is looked up,
    /// and the result is as `in_config_dir` says: the configuration of that
    /// scope, or the `IoError` for want of a configuration directory.
    pub fn with_project(branch_name: String, project: Result<String, CommitCounterError>) -> (r:
        Result<Config, CommitCounterError>)
        ensures
            match project {
                Ok(project_name) => (r matches Ok(config) && config.wf() && config.project()
                    == project_name@ && config.branch() == branch_name@) || (r matches Err(
                    CommitCounterError::IoError(s),
                ) && s@ == storage_failure()),
                Err(e) => r == Err::<Config, CommitCounterError>(e),
            },
    {
        match project {
            Ok(project_name) => Config::in_config_dir(
                project_name,
                branch_name,
                platform_config_dir(),
            ),
            Err(e) => Err(e),
        }
    }

    /// The configuration, given what the gateway answered to the question
    /// for the branch. A failure is handed on as it is, and the gateway is
    /// asked nothing more. For a branch, the gateway is asked for the
    /// project, and the result is as `with_project` says.
    pub fn with_branch(branch: Result<String, CommitCounterError>, git_ops: &dyn GitOperations) -> (r:
        Result<Config, CommitCounterError>)
        ensures
            match branch {
                Ok(branch_name) => r matches Ok(config) ==> config.wf() && config.branch()
                    == branch_name@,
                Err(e) => r == Err::<Config, CommitCounterError>(e),
            },
    {
        match branch {
            Ok(branch_name) => Config::with_project(branch_name, get_project_name(git_ops)),
            Err(e) => Err(e),
        }
    }

    /// Create a new configuration: the scope is asked of the gateway, the
    /// branch first and the project second, and the counter file lies in the
    /// storage directory of this machine. Neither the directory nor the file
    /// is created.
    ///
    /// The first failure ends the work and is the result: the gateway's for
    /// the branch, then the one for the project (the gateway's, or a
    /// `GitError` for a root directory without a name), then the `IoError`
    /// for want of a configuration directory. `with_branch`, `with_project`
    /// and `in_config_dir` state this, each for the answer it is given.
    pub fn new(git_ops: &dyn GitOperations) -> (r: Result<Config, CommitCounterError>)
        ensures
            r matches Ok(config) ==> config.wf(),
    {
        Config::with_branch(git_ops.get_branch(), git_ops)
    }

    /// Makes a branch name safe for use in a file name: a branch such as
    /// `name/test` must not lead into a directory.
    pub fn sanitize_branch_name(branch: &str) -> (r: String)
        ensures
            r@ == sanitized(branch@),
    {
        let chars = to_chars(branch);
        let mut out = String::new();
        let mut i: usize = 0;
        while i < chars.len()
            invariant
                i <= chars.len(),
                out@ == sanitized(chars@.take(i as int)),
            decreases chars.len() - i,
        {
            let c = chars[i];
            let safe = if c == '/' {
                '_'
            } else {
                c
            };
            push_char(&mut out, safe);
            assert(sanitized(chars@.take(i + 1)) == sanitized(chars@.take(i as int)).push(safe));
            i = i + 1;
        }
        assert(chars@.take(i as int) == chars@);
        out
    }

    /// The name of the counter file of the scope `project`, `branch`.
    pub fn file_name_for(project: &str, branch: &str) -> (r: String)
        ensures
            r@ == file_name(project@, branch@),
    {
        let safe_branch = Config::sanitize_branch_name(branch);
        String::from_str(project).concat("_").concat(safe_branch.as_str()).concat(".counts")
    }

    /// Get the path to the counter file
    pub fn counter_file_path(&self) -> (r: &Path)
        ensures
            r == self.counter_path(),
    {
        &*self.counter_file_path
    }

    /// Get the name of the counter file
    pub fn counter_file_name(&self) -> (r: &str)
        ensures
            r@ == self.counter_file(),
    {
        self.counter_file_name.as_str()
    }

    /// Get the branch name
    pub fn branch_name(&self) -> (r: &str)
        ensures
            r@ == self.branch(),
    {
        self.branch_name.as_str()
    }

    /// Get the project name
    pub fn project_name(&self) -> (r: &str)
        ensures
            r@ == self.project(),
    {
        self.project_name.as_str()
    }
}

} // verus!

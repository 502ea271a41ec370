use git_commit_counter_lib::CommitCounterError;

#[test]
fn messages_name_the_kind_of_error() {
    assert_eq!(
        CommitCounterError::IoError("Home directory not found".to_string()).message(),
        "I/O error: Home directory not found"
    );
    assert_eq!(
        CommitCounterError::GitError("Commit failed".to_string()).message(),
        "Git error: Commit failed"
    );
    assert_eq!(
        CommitCounterError::ParseError("Failed to parse count: x".to_string()).message(),
        "Parse error: Failed to parse count: x"
    );
    assert_eq!(
        CommitCounterError::ValidationError("bad input".to_string()).message(),
        "Validation error: bad input"
    );
    assert_eq!(CommitCounterError::GitError(String::new()).message(), "Git error: ");
}

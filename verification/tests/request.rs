use git_commit_counter_lib::request::parse_commit_request;
use git_commit_counter_lib::{CommitCounterError, CommitType};

/// The variant and the token too, where `==` on types goes by the code only.
fn exact(r: Result<(CommitType, String), CommitCounterError>) -> String {
    format!("{:?}", r)
}

fn rejected() -> CommitCounterError {
    CommitCounterError::ValidationError(
        "Commit message must be in the format \"TYPE : message\"".to_string(),
    )
}

#[test]
fn a_request_is_split_at_its_first_colon() {
    assert_eq!(exact(parse_commit_request("FE : Add feature")), exact(Ok((CommitType::Feature, "Add feature".to_string()))));
    assert_eq!(exact(parse_commit_request("docs:update readme")), exact(Ok((CommitType::Documentation, "update readme".to_string()))));
    assert_eq!(exact(parse_commit_request("fix : a : b")), exact(Ok((CommitType::Custom("FIX".to_string()), "a : b".to_string()))));
}

#[test]
fn type_and_message_are_trimmed() {
    assert_eq!(exact(parse_commit_request("  perf\t:\t  faster loops \n")), exact(Ok((CommitType::Performance, "faster loops".to_string()))));
    assert_eq!(exact(parse_commit_request(":")), exact(Ok((CommitType::Custom(String::new()), String::new()))));
    assert_eq!(exact(parse_commit_request("t:")), exact(Ok((CommitType::Test, String::new()))));
}

#[test]
fn a_request_without_a_colon_is_rejected() {
    assert_eq!(parse_commit_request("FEAT add x"), Err(rejected()));
    assert_eq!(parse_commit_request(""), Err(rejected()));
    assert_eq!(parse_commit_request("no separator here"), Err(rejected()));
}

use git_commit_counter_lib::{
    CommitCounter, CommitCounterError, CommitType, Config, CounterStore, GitOperations,
};
use std::cell::RefCell;
use std::path::PathBuf;
use std::rc::Rc;

struct FakeGit {
    history: Result<Vec<String>, String>,
    commit_fails: bool,
    committed: Rc<RefCell<Vec<String>>>,
}

impl FakeGit {
    fn new() -> FakeGit {
        FakeGit {
            history: Ok(Vec::new()),
            commit_fails: false,
            committed: Rc::new(RefCell::new(Vec::new())),
        }
    }

    fn with_history(lines: &[&str]) -> FakeGit {
        let mut git = FakeGit::new();
        git.history = Ok(lines.iter().map(|s| s.to_string()).collect());
        git
    }
}

impl GitOperations for FakeGit {
    fn get_branch(&self) -> Result<String, CommitCounterError> {
        Ok("main".to_string())
    }

    fn get_root_dir(&self) -> Result<PathBuf, CommitCounterError> {
        Ok(PathBuf::from("/work/project"))
    }

    fn commit(&self, message: &str) -> Result<(), CommitCounterError> {
        if self.commit_fails {
            Err(CommitCounterError::GitError("Commit failed".to_string()))
        } else {
            self.committed.borrow_mut().push(message.to_string());
            Ok(())
        }
    }

    fn read_first_parent_history(&self) -> Result<Vec<String>, CommitCounterError> {
        match &self.history {
            Ok(lines) => Ok(lines.clone()),
            Err(e) => Err(CommitCounterError::GitError(e.clone())),
        }
    }
}

fn counter_on(branch: &str, git: FakeGit) -> CommitCounter {
    let config = Config::for_scope(
        "project".to_string(),
        branch.to_string(),
        PathBuf::from("/tmp/counter-store"),
    );
    CommitCounter::with_config(config, Box::new(git))
}

fn counter() -> CommitCounter {
    counter_on("main", FakeGit::new())
}

fn custom(s: &str) -> CommitType {
    CommitType::Custom(s.to_string())
}

fn entries(store: &CounterStore) -> Vec<(String, u32)> {
    let mut out = Vec::new();
    let mut i = 0;
    while i < store.len() {
        out.push((store.key_at(i).to_string(), store.count_at(i)));
        i += 1;
    }
    out
}

fn pairs(list: &[(&str, u32)]) -> Vec<(String, u32)> {
    list.iter().map(|(k, n)| (k.to_string(), *n)).collect()
}

fn parse_error(detail: &str) -> CommitCounterError {
    CommitCounterError::ParseError(format!("Failed to parse count: {}", detail))
}

const HEADER: &str = "\u{f0}\u{178}\u{201c}\u{152} Branch: ";

#[test]
fn a_missing_file_holds_nothing() {
    let c = counter();
    assert_eq!(c.read_all_counts(None).unwrap().len(), 0);
    assert_eq!(c.read_count(None, &CommitType::Feature), Ok(0));
    assert_eq!(c.read_count(None, &custom("X")), Ok(0));
}

#[test]
fn read_all_counts_reads_the_file() {
    let c = counter();
    let store = c.read_all_counts(Some("FEAT 3\nskip me please\nCHORE 1\n")).unwrap();
    assert_eq!(entries(&store), pairs(&[("FEAT", 3), ("CHORE", 1)]));
}

#[test]
fn read_all_counts_fails_on_a_bad_count() {
    let c = counter();
    assert_eq!(
        c.read_all_counts(Some("FEAT three\n")).err(),
        Some(parse_error("invalid digit found in string"))
    );
}

#[test]
fn read_count_looks_up_the_display_string() {
    let c = counter();
    let file = Some("FEAT 3\nFIXE 1\nCHORE 8\n");
    assert_eq!(c.read_count(file, &CommitType::Feature), Ok(3));
    assert_eq!(c.read_count(file, &CommitType::Fix), Ok(1));
    assert_eq!(c.read_count(file, &CommitType::Documentation), Ok(0));
    assert_eq!(c.read_count(file, &custom("CHORE")), Ok(8));
    assert_eq!(c.read_count(file, &custom("chore")), Ok(8));
    assert_eq!(c.read_count(file, &custom("OTHER")), Ok(0));
}

#[test]
fn read_count_fails_on_a_bad_count_of_any_type() {
    let c = counter();
    assert_eq!(
        c.read_count(Some("FEAT 1\nDOCS 99999999999\n"), &CommitType::Feature),
        Err(parse_error("number too large to fit in target type"))
    );
}

#[test]
fn update_count_sets_one_entry_and_keeps_the_others() {
    let c = counter();
    assert_eq!(c.update_count(None, &CommitType::Feature, 1), Ok("FEAT 1\n".to_string()));
    assert_eq!(
        c.update_count(Some("FEAT 1\nDOCS 2\n"), &CommitType::Feature, 7),
        Ok("FEAT 7\nDOCS 2\n".to_string())
    );
    assert_eq!(
        c.update_count(Some("FEAT 1\nDOCS 2\n"), &CommitType::Test, 3),
        Ok("FEAT 1\nDOCS 2\nTEST 3\n".to_string())
    );
    assert_eq!(
        c.update_count(Some("  FEAT   1\njunk\nFEAT 4"), &custom("wip"), 3),
        Ok("FEAT 4\nWIP 3\n".to_string())
    );
}

#[test]
fn update_count_fails_on_a_bad_count_in_the_file() {
    let c = counter();
    assert_eq!(
        c.update_count(Some("DOCS x\n"), &CommitType::Feature, 1),
        Err(parse_error("invalid digit found in string"))
    );
}

#[test]
fn updates_are_read_back_as_a_mapping() {
    let c = counter();
    let updates = [
        (CommitType::Feature, 4u32),
        (custom("chore"), 2),
        (CommitType::Performance, 0),
        (CommitType::Feature, 9),
        (custom("É"), u32::MAX),
    ];
    let mut file: Option<String> = None;
    for (commit_type, count) in &updates {
        file = Some(c.update_count(file.as_deref(), commit_type, *count).unwrap());
    }
    let store = c.read_all_counts(file.as_deref()).unwrap();
    let mut found = entries(&store);
    found.sort();
    let mut expected = pairs(&[("FEAT", 9), ("CHORE", 2), ("PERF", 0), ("É", u32::MAX)]);
    expected.sort();
    assert_eq!(found, expected);
}

#[test]
fn first_increment_returns_one_and_writes_it() {
    let c = counter();
    assert_eq!(
        c.increment_count(None, &CommitType::Feature),
        Ok((1, "FEAT 1\n".to_string()))
    );
}

#[test]
fn increments_count_up_and_keep_the_last() {
    let c = counter();
    let mut file: Option<String> = Some("DOCS 5\n".to_string());
    let mut n: u32 = 1;
    while n <= 25 {
        let (count, text) = c.increment_count(file.as_deref(), &CommitType::Fix).unwrap();
        assert_eq!(count, n);
        file = Some(text);
        n += 1;
    }
    assert_eq!(file.as_deref(), Some("DOCS 5\nFIXE 25\n"));
    assert_eq!(c.read_count(file.as_deref(), &CommitType::Fix), Ok(25));
    assert_eq!(c.read_count(file.as_deref(), &CommitType::Documentation), Ok(5));
}

#[test]
fn increment_goes_on_from_what_is_kept() {
    let c = counter();
    assert_eq!(
        c.increment_count(Some("FEAT 41\n"), &CommitType::Feature),
        Ok((42, "FEAT 42\n".to_string()))
    );
    assert_eq!(
        c.increment_count(Some("FEAT 4294967294\n"), &CommitType::Feature),
        Ok((u32::MAX, "FEAT 4294967295\n".to_string()))
    );
}

#[test]
fn increment_of_a_type_with_whitespace_starts_over_each_time() {
    let c = counter();
    let odd = custom("a b");
    let (first, text) = c.increment_count(None, &odd).unwrap();
    assert_eq!((first, text.as_str()), (1, "A B 1\n"));
    let (second, text) = c.increment_count(Some(&text), &odd).unwrap();
    assert_eq!((second, text.as_str()), (1, "A B 1\n"));
}

#[test]
fn format_commit_message_is_exact() {
    let c = counter();
    assert_eq!(
        c.format_commit_message(&CommitType::Feature, 1, "add x"),
        "[main] [FEAT 1 : add x]"
    );
    assert_eq!(
        c.format_commit_message(&custom("chore"), 120, "  spaced  "),
        "[main] [CHORE 120 :   spaced  ]"
    );
    assert_eq!(c.format_commit_message(&CommitType::Fix, 0, ""), "[main] [FIXE 0 : ]");
    let other = counter_on("feature/login", FakeGit::new());
    assert_eq!(
        other.format_commit_message(&CommitType::Documentation, u32::MAX, "é"),
        "[feature/login] [DOCS 4294967295 : é]"
    );
}

#[test]
fn create_commit_takes_the_next_number() {
    let c = counter();
    let pending = c.create_commit(Some("FEAT 2\n"), &CommitType::Feature, "add y").unwrap();
    assert_eq!(pending.count, 3);
    assert_eq!(pending.store_text, "FEAT 3\n");
    assert_eq!(pending.message, "[main] [FEAT 3 : add y]");
}

#[test]
fn create_commit_fails_on_a_bad_count_in_the_file() {
    let c = counter();
    assert_eq!(
        c.create_commit(Some("FEAT x\n"), &CommitType::Feature, "m").err(),
        Some(parse_error("invalid digit found in string"))
    );
}

#[test]
fn a_commit_is_made_with_the_formatted_subject() {
    let git = FakeGit::new();
    let committed = git.committed.clone();
    let c = counter_on("main", git);
    let mut file: Option<String> = None;
    for message in ["first", "second"] {
        let pending = c.create_commit(file.as_deref(), &CommitType::Test, message).unwrap();
        file = Some(pending.store_text.clone());
        assert_eq!(c.complete_commit(&pending), Ok(()));
    }
    assert_eq!(
        *committed.borrow(),
        vec!["[main] [TEST 1 : first]".to_string(), "[main] [TEST 2 : second]".to_string()]
    );
    assert_eq!(file.as_deref(), Some("TEST 2\n"));
}

#[test]
fn a_failed_commit_still_uses_up_its_number() {
    let mut git = FakeGit::new();
    git.commit_fails = true;
    let c = counter_on("main", git);
    let mut file: Option<String> = None;
    let pending = c.create_commit(file.as_deref(), &CommitType::Feature, "add x").unwrap();
    file = Some(pending.store_text.clone());
    assert_eq!(
        c.complete_commit(&pending),
        Err(CommitCounterError::GitError("Commit failed".to_string()))
    );
    assert_eq!(c.read_count(file.as_deref(), &CommitType::Feature), Ok(1));
    let pending = c.create_commit(file.as_deref(), &CommitType::Feature, "again").unwrap();
    assert_eq!(pending.count, 2);
    assert_eq!(pending.message, "[main] [FEAT 2 : again]");
}

#[test]
fn show_counts_lists_the_standard_types_for_an_empty_store() {
    let c = counter();
    let expected = format!(
        "{}main\n\nFEAT  : 0\nFIXE  : 0\nDOCS  : 0\nREFA  : 0\nTEST  : 0\nPERF  : 0\n",
        HEADER
    );
    assert_eq!(c.show_counts(None), Ok(expected.clone()));
    assert_eq!(c.show_counts(Some("")), Ok(expected));
}

#[test]
fn show_counts_lists_standard_types_first_and_custom_types_after() {
    let c = counter_on("feature/login", FakeGit::new());
    let file = "CHORE 2\nPERF 7\nLONGERTYPE 10\nFEAT 12\nX 1\n";
    let expected = format!(
        "{}feature/login\n\nFEAT  : 12\nFIXE  : 0\nDOCS  : 0\nREFA  : 0\nTEST  : 0\nPERF  : 7\n\
         CHORE : 2\nLONGERTYPE: 10\nX     : 1\n",
        HEADER
    );
    assert_eq!(c.show_counts(Some(file)), Ok(expected));
}

#[test]
fn show_counts_pads_by_characters() {
    let c = counter();
    let shown = c.show_counts(Some("ÉTÉ 3\n")).unwrap();
    assert!(shown.ends_with("PERF  : 0\nÉTÉ   : 3\n"), "{:?}", shown);
}

#[test]
fn show_counts_fails_on_a_bad_count() {
    let c = counter();
    assert_eq!(
        c.show_counts(Some("FEAT 1\nFIXE nope\n")),
        Err(parse_error("invalid digit found in string"))
    );
}

#[test]
fn sync_counts_keeps_the_highest_count_of_the_branch() {
    let c = counter_on(
        "main",
        FakeGit::with_history(&[
            "[main] [FEAT 1 : add x]",
            "[main] [FEAT 3 : add y]",
            "[other] [FEAT 5 : add z]",
        ]),
    );
    let text = c.sync_counts().unwrap();
    assert_eq!(text, "FEAT 3\n");
    assert_eq!(c.read_count(Some(&text), &CommitType::Feature), Ok(3));
}

#[test]
fn sync_counts_keeps_a_type_recorded_with_zero() {
    let c = counter_on("main", FakeGit::with_history(&["[main] [WIP 0 : x]"]));
    let text = c.sync_counts().unwrap();
    assert_eq!(text, "WIP 0\n");
    let store = c.read_all_counts(Some(&text)).unwrap();
    assert_eq!(entries(&store), pairs(&[("WIP", 0)]));
}

#[test]
fn sync_counts_replaces_the_store() {
    let c = counter_on(
        "main",
        FakeGit::with_history(&["[main] [DOCS 2 : b]", "[main] [FIXE 4 : a]", "not counted"]),
    );
    let before = "FEAT 10\nDOCS 9\n";
    assert_eq!(c.read_count(Some(before), &CommitType::Feature), Ok(10));
    let text = c.sync_counts().unwrap();
    assert_eq!(text, "DOCS 2\nFIXE 4\n");
    assert_eq!(c.read_count(Some(&text), &CommitType::Feature), Ok(0));
    assert_eq!(c.read_count(Some(&text), &CommitType::Documentation), Ok(2));
}

#[test]
fn sync_counts_of_an_empty_history_is_an_empty_file() {
    let c = counter();
    assert_eq!(c.sync_counts(), Ok(String::new()));
}

#[test]
fn sync_counts_fails_as_the_gateway_fails() {
    let mut git = FakeGit::new();
    git.history = Err("Failed to read git history".to_string());
    let c = counter_on("main", git);
    assert_eq!(
        c.sync_counts(),
        Err(CommitCounterError::GitError("Failed to read git history".to_string()))
    );
}

#[test]
fn sync_counts_fails_on_a_count_that_does_not_fit() {
    let c = counter_on("main", FakeGit::with_history(&["[main] [FEAT 4294967296 : y]"]));
    assert_eq!(
        c.sync_counts(),
        Err(CommitCounterError::ParseError(
            "Invalid count in message: number too large to fit in target type".to_string()
        ))
    );
}

#[test]
fn sync_with_takes_the_answer_of_the_gateway() {
    let c = counter();
    assert_eq!(
        c.sync_with(Ok(vec!["[main] [REFA 6 : r]".to_string()])),
        Ok("REFA 6\n".to_string())
    );
    assert_eq!(
        c.sync_with(Err(CommitCounterError::GitError("no log".to_string()))),
        Err(CommitCounterError::GitError("no log".to_string()))
    );
    assert_eq!(
        c.sync_with(Err(CommitCounterError::IoError("broken pipe".to_string()))),
        Err(CommitCounterError::IoError("broken pipe".to_string()))
    );
}

#[test]
fn reset_counts_clears_the_store() {
    let c = counter();
    let text = c.reset_counts();
    assert_eq!(text, "");
    assert_eq!(c.read_all_counts(Some(&text)).unwrap().len(), 0);
    assert_eq!(c.read_count(Some(&text), &CommitType::Feature), Ok(0));
}

#[test]
fn the_counter_knows_its_scope() {
    let c = counter_on("dev", FakeGit::new());
    assert_eq!(c.config().branch_name(), "dev");
    assert_eq!(c.config().project_name(), "project");
    assert_eq!(c.config().counter_file_name(), "project_dev.counts");
}

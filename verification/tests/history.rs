use git_commit_counter_lib::history::{observe, reconcile, SUBJECT_PATTERN};
use git_commit_counter_lib::number::NumberError;
use git_commit_counter_lib::{CommitCounterError, CounterStore};

fn entries(store: &CounterStore) -> Vec<(String, u32)> {
    let mut out = Vec::new();
    let mut i = 0;
    while i < store.len() {
        out.push((store.key_at(i).to_string(), store.count_at(i)));
        i += 1;
    }
    out
}

fn pairs(list: &[(&str, u32)]) -> Vec<(String, u32)> {
    list.iter().map(|(k, n)| (k.to_string(), *n)).collect()
}

fn subjects(list: &[&str]) -> Vec<String> {
    list.iter().map(|s| s.to_string()).collect()
}

fn groups(list: &[Option<&str>]) -> Vec<Option<String>> {
    list.iter().map(|g| g.map(|s| s.to_string())).collect()
}

fn sync_error(detail: &str) -> CommitCounterError {
    CommitCounterError::ParseError(format!("Invalid count in message: {}", detail))
}

#[test]
fn subject_pattern_is_the_bracketed_form() {
    assert_eq!(SUBJECT_PATTERN, r"\[(.*?)\]\s*\[(.*?)\s*(\d+)\s*:\s*(.*)\]");
}

#[test]
fn reconcile_keeps_the_highest_count_of_the_branch() {
    let history = subjects(&[
        "[main] [FEAT 1 : add x]",
        "[main] [FEAT 3 : add y]",
        "[other] [FEAT 5 : add z]",
    ]);
    let store = reconcile(&history, "main").unwrap();
    assert_eq!(entries(&store), pairs(&[("FEAT", 3)]));
}

#[test]
fn reconcile_goes_by_value_not_by_position() {
    let history = subjects(&[
        "[main] [FEAT 3 : newest]",
        "[main] [FIXE 2 : fix]",
        "[main] [FEAT 7 : rebased]",
        "[main] [FEAT 1 : oldest]",
        "[main] [FIXE 1 : first fix]",
    ]);
    let store = reconcile(&history, "main").unwrap();
    assert_eq!(entries(&store), pairs(&[("FEAT", 7), ("FIXE", 2)]));
}

#[test]
fn reconcile_passes_over_subjects_of_another_form() {
    let history = subjects(&[
        "Merge branch 'x' into main",
        "[main] FEAT 4 : no inner brackets",
        "[main] [FEAT : no count]",
        "[main] [DOCS 2 : counted]",
        "",
        "main FEAT 9 : nothing bracketed",
    ]);
    let store = reconcile(&history, "main").unwrap();
    assert_eq!(entries(&store), pairs(&[("DOCS", 2)]));
}

#[test]
fn reconcile_of_no_history_is_the_empty_store() {
    let store = reconcile(&Vec::new(), "main").unwrap();
    assert_eq!(store.len(), 0);
    let store = reconcile(&subjects(&["[dev] [FEAT 1 : x]"]), "main").unwrap();
    assert_eq!(store.len(), 0);
}

#[test]
fn reconcile_compares_branches_exactly() {
    let history = subjects(&[
        "[Main] [FEAT 9 : other case]",
        "[main ] [FEAT 8 : blank inside]",
        "[feature/login] [FEAT 2 : login]",
        "[main] [FEAT 1 : x]",
    ]);
    assert_eq!(entries(&reconcile(&history, "main").unwrap()), pairs(&[("FEAT", 1)]));
    assert_eq!(
        entries(&reconcile(&history, "feature/login").unwrap()),
        pairs(&[("FEAT", 2)])
    );
}

#[test]
fn reconcile_keeps_custom_types_and_trims_their_token() {
    let history = subjects(&[
        "[main] [CHORE 2 : tidy]",
        "[main] [ CHORE 5 : tidy more]",
        "[main] [my type 4 : two words]",
    ]);
    let store = reconcile(&history, "main").unwrap();
    assert_eq!(entries(&store), pairs(&[("CHORE", 5), ("my type", 4)]));
}

#[test]
fn reconcile_keeps_a_count_of_zero() {
    let history = subjects(&["[main] [FEAT 0 : nothing yet]", "[main] [DOCS 1 : x]"]);
    let store = reconcile(&history, "main").unwrap();
    assert_eq!(entries(&store), pairs(&[("FEAT", 0), ("DOCS", 1)]));
}

#[test]
fn reconcile_keeps_a_type_whose_highest_count_is_zero() {
    let store = reconcile(&subjects(&["[main] [WIP 0 : x]"]), "main").unwrap();
    assert_eq!(entries(&store), pairs(&[("WIP", 0)]));
    assert_eq!(store.get("WIP"), Some(0));
    let history = subjects(&["[main] [WIP 0 : a]", "[main] [WIP 2 : b]", "[main] [WIP 0 : c]"]);
    let store = reconcile(&history, "main").unwrap();
    assert_eq!(entries(&store), pairs(&[("WIP", 2)]));
    let store = reconcile(&subjects(&["[other] [WIP 0 : x]"]), "main").unwrap();
    assert_eq!(store.len(), 0);
}

#[test]
fn reconcile_keeps_exactly_the_types_recorded_on_the_branch() {
    let history = subjects(&[
        "[main] [A 0 : x]",
        "[other] [B 4 : x]",
        "[main] [C 3 : x]",
        "no form here",
        "[main] [A 0 : again]",
        "[main] [D 1 : x]",
        "[main] [C 1 : lower]",
    ]);
    let store = reconcile(&history, "main").unwrap();
    assert_eq!(entries(&store), pairs(&[("A", 0), ("C", 3), ("D", 1)]));
}

#[test]
fn reconcile_finds_the_form_anywhere_in_the_subject() {
    let history = subjects(&["fixup! [main]   [PERF 12:fast] trailing"]);
    let store = reconcile(&history, "main").unwrap();
    assert_eq!(entries(&store), pairs(&[("PERF", 12)]));
}

#[test]
fn reconcile_fails_on_a_count_that_does_not_fit() {
    let history = subjects(&["[main] [FEAT 1 : x]", "[main] [FEAT 4294967296 : y]"]);
    assert_eq!(
        reconcile(&history, "main").err(),
        Some(sync_error("number too large to fit in target type"))
    );
}

#[test]
fn reconcile_fails_on_a_bad_count_of_any_branch() {
    let history = subjects(&["[other] [FEAT 99999999999 : y]", "[main] [FEAT 1 : x]"]);
    assert_eq!(
        reconcile(&history, "main").err(),
        Some(sync_error("number too large to fit in target type"))
    );
}

#[test]
fn reconcile_fails_on_digits_that_are_not_ascii() {
    let history = subjects(&["[main] [FEAT ٣ : arabic-indic three]"]);
    assert_eq!(
        reconcile(&history, "main").err(),
        Some(sync_error("invalid digit found in string"))
    );
}

#[test]
fn observe_raises_the_count_of_the_branch() {
    let mut store = CounterStore::new();
    let found = groups(&[
        Some("[main] [FEAT 3 : add y]"),
        Some("main"),
        Some("FEAT"),
        Some("3"),
        Some("add y"),
    ]);
    assert_eq!(observe(&mut store, "main", &found), Ok(()));
    assert_eq!(entries(&store), pairs(&[("FEAT", 3)]));
    let lower = groups(&[Some("x"), Some("main"), Some("FEAT"), Some("2"), Some("m")]);
    assert_eq!(observe(&mut store, "main", &lower), Ok(()));
    assert_eq!(entries(&store), pairs(&[("FEAT", 3)]));
    let equal = groups(&[Some("x"), Some("main"), Some("FEAT"), Some("3"), Some("m")]);
    assert_eq!(observe(&mut store, "main", &equal), Ok(()));
    assert_eq!(entries(&store), pairs(&[("FEAT", 3)]));
    let higher = groups(&[Some("x"), Some("main"), Some(" FEAT "), Some("10"), Some("m")]);
    assert_eq!(observe(&mut store, "main", &higher), Ok(()));
    assert_eq!(entries(&store), pairs(&[("FEAT", 10)]));
}

#[test]
fn observe_keeps_a_first_count_of_zero() {
    let mut store = CounterStore::new();
    let zero = groups(&[Some("x"), Some("main"), Some("WIP"), Some("0"), Some("m")]);
    assert_eq!(observe(&mut store, "main", &zero), Ok(()));
    assert_eq!(entries(&store), pairs(&[("WIP", 0)]));
    assert_eq!(observe(&mut store, "main", &zero), Ok(()));
    assert_eq!(entries(&store), pairs(&[("WIP", 0)]));
    store.set("DOCS", 3);
    let lower = groups(&[Some("x"), Some("main"), Some("DOCS"), Some("0"), Some("m")]);
    assert_eq!(observe(&mut store, "main", &lower), Ok(()));
    assert_eq!(entries(&store), pairs(&[("WIP", 0), ("DOCS", 3)]));
}

#[test]
fn observe_leaves_other_branches_out() {
    let mut store = CounterStore::new();
    let found = groups(&[Some("x"), Some("other"), Some("FEAT"), Some("5"), Some("m")]);
    assert_eq!(observe(&mut store, "main", &found), Ok(()));
    assert_eq!(store.len(), 0);
}

#[test]
fn observe_fails_on_bad_digits_and_leaves_the_store() {
    let mut store = CounterStore::new();
    store.set("FEAT", 2);
    let bad = groups(&[Some("x"), Some("main"), Some("FEAT"), Some("12a"), Some("m")]);
    assert_eq!(observe(&mut store, "main", &bad), Err(NumberError::InvalidDigit));
    let big = groups(&[Some("x"), Some("other"), Some("FEAT"), Some("4294967296"), Some("m")]);
    assert_eq!(observe(&mut store, "main", &big), Err(NumberError::Overflow));
    assert_eq!(entries(&store), pairs(&[("FEAT", 2)]));
}

#[test]
fn observe_fills_in_for_missing_groups() {
    let mut store = CounterStore::new();
    assert_eq!(observe(&mut store, "main", &groups(&[Some("x")])), Ok(()));
    assert_eq!(store.len(), 0);
    assert_eq!(observe(&mut store, "", &groups(&[Some("x")])), Ok(()));
    assert_eq!(entries(&store), pairs(&[("", 0)]));
    let no_count = groups(&[Some("x"), Some("main"), Some("FEAT"), None, Some("m")]);
    assert_eq!(observe(&mut store, "main", &no_count), Ok(()));
    assert_eq!(entries(&store), pairs(&[("", 0), ("FEAT", 0)]));
    let no_type = groups(&[Some("x"), Some("main"), None, Some("4"), Some("m")]);
    assert_eq!(observe(&mut store, "main", &no_type), Ok(()));
    assert_eq!(entries(&store), pairs(&[("", 4), ("FEAT", 0)]));
    let no_branch = groups(&[Some("x"), None, Some("DOCS"), Some("1"), Some("m")]);
    assert_eq!(observe(&mut store, "", &no_branch), Ok(()));
    assert_eq!(entries(&store), pairs(&[("", 4), ("FEAT", 0), ("DOCS", 1)]));
}

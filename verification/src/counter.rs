//! The counting engine.
//!
//! The engine never touches the counter file itself. Each operation takes the
//! text of the file as it was found, `None` for a file that does not exist,
//! and where the store changes it returns the text that is to replace the
//! file. Reading and writing the file is the caller's part. A commit takes two
//! steps, `create_commit` and `complete_commit`, and the caller writes the
//! file between them.

use vstd::prelude::*;
use vstd::string::*;
use crate::commit_types::{kinds, standard_kinds, CommitKind, CommitType};
use crate::config::Config;
use crate::error::CommitCounterError;
use crate::git::GitOperations;
use crate::history::{
    pattern_failure, reconcile, reconciled, recorded_count_failure, regex_accepts,
    subject_matches, SUBJECT_PATTERN,
};
use crate::number::{decimal, render_count, NumberError};
use crate::store::{
    as_map, assign, count_failure, count_of, has_distinct_keys, has_field_keys,
    lemma_assign_is_insert, lemma_assign_keeps_field_keys, lemma_assign_keeps_keys_distinct,
    lemma_assign_lookup, lemma_read_lines_wf, lemma_read_written, read_text, written,
    CounterStore,
};
use crate::text::{is_field, is_whitespace, lines, push_char, str_eq, texts};

verus! {

/// The text of a file, if there is a file.
pub open spec fn file_text(file: Option<&str>) -> Option<Seq<char>> {
    match file {
        Some(text) => Some(text@),
        None => None,
    }
}

/// The entries that the counter file holds. A file that does not exist holds
/// none.
pub open spec fn stored(file: Option<Seq<char>>) -> Result<Seq<(Seq<char>, u32)>, NumberError> {
    match file {
        Some(text) => read_text(text),
        None => Ok(Seq::empty()),
    }
}

/// The subject of a counted commit.
pub open spec fn message_text(
    branch: Seq<char>,
    code: Seq<char>,
    count: u32,
    message: Seq<char>,
) -> Seq<char> {
    "["@ + branch + "] ["@ + code + " "@ + decimal(count as nat) + " : "@ + message + "]"@
}

/// `s`, filled up with blanks on the right to `width` characters. A longer
/// text is left as it is.
pub open spec fn padded(s: Seq<char>, width: nat) -> Seq<char> {
    if s.len() >= width {
        s
    } else {
        s + Seq::new((width - s.len()) as nat, |i: int| ' ')
    }
}

/// The line of the report for one type.
pub open spec fn report_line(key: Seq<char>, count: u32) -> Seq<char> {
    padded(key, 6) + ": "@ + decimal(count as nat) + "\n"@
}

/// The first lines of the report, which name the branch.
pub open spec fn report_header(branch: Seq<char>) -> Seq<char> {
    "\u{f0}\u{178}\u{201c}\u{152} Branch: "@ + branch + "\n\n"@
}

/// The line of the report for a standard type: its code and what is kept for
/// it, 0 where nothing is.
pub open spec fn standard_line(entries: Seq<(Seq<char>, u32)>, kind: CommitKind) -> Seq<char> {
    report_line(kind.code(), count_of(entries, kind.code()))
}

/// The lines of the report for the first `n` standard types.
pub open spec fn standard_lines(entries: Seq<(Seq<char>, u32)>, n: int) -> Seq<char>
    decreases n,
{
    if n <= 0 {
        Seq::empty()
    } else {
        standard_lines(entries, n - 1) + standard_line(entries, standard_kinds()[n - 1])
    }
}

/// The lines of the report for the six standard types, in their fixed order.
pub open spec fn standard_report(entries: Seq<(Seq<char>, u32)>) -> Seq<char> {
    standard_lines(entries, 6)
}

/// Whether `key` is the code of a standard type.
pub open spec fn is_standard_code(key: Seq<char>) -> bool {
    key == "FEAT"@ || key == "FIXE"@ || key == "DOCS"@ || key == "REFA"@ || key == "TEST"@ || key
        == "PERF"@
}

/// The lines of the report for the entries whose key is no standard code, in
/// the order of the entries.
pub open spec fn custom_report(entries: Seq<(Seq<char>, u32)>) -> Seq<char>
    decreases entries.len(),
{
    if entries.len() == 0 {
        Seq::empty()
    } else {
        let last = entries.last();
        custom_report(entries.drop_last()) + if is_standard_code(last.0) {
            Seq::empty()
        } else {
            report_line(last.0, last.1)
        }
    }
}

/// The report on a store: the branch, the six standard types, then the other
/// types that the store holds.
pub open spec fn report(branch: Seq<char>, entries: Seq<(Seq<char>, u32)>) -> Seq<char> {
    report_header(branch) + standard_report(entries) + custom_report(entries)
}

/// The text of the counter file after `key` has been given `count`.
pub open spec fn updated(file: Option<Seq<char>>, key: Seq<char>, count: u32) -> Result<
    Seq<char>,
    NumberError,
> {
    match stored(file) {
        Ok(entries) => Ok(written(assign(entries, key, count))),
        Err(e) => Err(e),
    }
}

/// The count that follows the one kept for `key`.
pub open spec fn next_count(file: Option<Seq<char>>, key: Seq<char>) -> int {
    match stored(file) {
        Ok(entries) => count_of(entries, key) + 1,
        Err(_) => 0,
    }
}

/// The text that replaces the counter file after a history has been
/// reconciled, where that succeeds.
pub open spec fn synced(subjects: Seq<Seq<char>>, branch: Seq<char>) -> Option<Seq<char>> {
    if subjects.len() == 0 || regex_accepts(SUBJECT_PATTERN@) {
        match reconciled(subject_matches(subjects), branch) {
            Ok(entries) => Some(written(entries)),
            Err(_) => None,
        }
    } else {
        None
    }
}

/// The subjects that the gateway answered with, none where it failed.
pub open spec fn answered_subjects(history: Result<Vec<String>, CommitCounterError>) -> Seq<
    Seq<char>,
> {
    match history {
        Ok(subjects) => texts(subjects@),
        Err(_) => Seq::empty(),
    }
}

/// Whether `r` is the parse error with the sentence `sentence`.
pub open spec fn is_parse_error<T>(r: Result<T, CommitCounterError>, sentence: Seq<char>) -> bool {
    r matches Err(CommitCounterError::ParseError(s)) && s@ == sentence
}

/// What is left to do for a commit once its number is known: replace the
/// counter file by `store_text`, then commit with the subject `message`.
pub struct PendingCommit {
    /// The number of the commit.
    pub count: u32,
    /// The text of the counter file with that number in it.
    pub store_text: String,
    /// The subject of the commit.
    pub message: String,
}

/// Counter for Git commits
pub struct CommitCounter {
    config: Config,
    git_ops: Box<dyn GitOperations>,
}

impl CommitCounter {
    /// The scope of the counter.
    pub closed spec fn scope(&self) -> Config {
        self.config
    }

    /// The branch whose commits are counted.
    pub open spec fn branch(&self) -> Seq<char> {
        self.scope().branch()
    }

    /// Create a new commit counter with the given Git operations. The scope
    /// is asked of the gateway; fails as `Config::new` fails.
    pub fn new(git_ops: Box<dyn GitOperations>) -> (r: Result<CommitCounter, CommitCounterError>)
        ensures
            r matches Ok(counter) ==> counter.scope().wf(),
    {
        match Config::new(&*git_ops) {
            Ok(config) => Ok(CommitCounter { config, git_ops }),
            Err(e) => Err(e),
        }
    }

    /// A counter for the scope of `config`, with `git_ops` as its gateway to
    /// version control.
    pub fn with_config(config: Config, git_ops: Box<dyn GitOperations>) -> (r: CommitCounter)
        ensures
            r.scope() == config,
    {
        CommitCounter { config, git_ops }
    }

    /// The scope of the counter.
    pub fn config(&self) -> (r: &Config)
        ensures
            *r == self.scope(),
    {
        &self.config
    }

    /// Read all counters from the text of the counter file.
    ///
    /// Fails with a `ParseError` exactly when some line of two fields has a
    /// second field that is not a count.
    pub fn read_all_counts(&self, file: Option<&str>) -> (r: Result<
        CounterStore,
        CommitCounterError,
    >)
        ensures
            match stored(file_text(file)) {
                Ok(entries) => r matches Ok(store) && store.wf() && store.entries() == entries,
                Err(e) => is_parse_error(r, count_failure(e)),
            },
    {
        match file {
            Some(text) => CounterStore::parse(text),
            None => Ok(CounterStore::new()),
        }
    }

    /// Read the counter for a specific commit type: what is kept under its
    /// code, and 0 where nothing is.
    pub fn read_count(&self, file: Option<&str>, commit_type: &CommitType) -> (r: Result<
        u32,
        CommitCounterError,
    >)
        ensures
            match stored(file_text(file)) {
                Ok(entries) => r == Ok::<u32, CommitCounterError>(
                    count_of(entries, commit_type@.code()),
                ),
                Err(e) => is_parse_error(r, count_failure(e)),
            },
    {
        match self.read_all_counts(file) {
            Ok(store) => {
                let key = commit_type.to_display_string();
                Ok(store.count(key.as_str()))
            },
            Err(e) => Err(e),
        }
    }

    /// Update the counter for a specific commit type. Returns the text that
    /// is to replace the counter file: every entry that the file held, with
    /// the entry of this type set to `count`.
    pub fn update_count(&self, file: Option<&str>, commit_type: &CommitType, count: u32) -> (r:
        Result<String, CommitCounterError>)
        ensures
            match updated(file_text(file), commit_type@.code(), count) {
                Ok(text) => r matches Ok(s) && s@ == text,
                Err(e) => is_parse_error(r, count_failure(e)),
            },
    {
        match self.read_all_counts(file) {
            Ok(store) => {
                let mut store = store;
                let key = commit_type.to_display_string();
                store.set(key.as_str(), count);
                Ok(store.render())
            },
            Err(e) => Err(e),
        }
    }

    /// Increment the counter for a specific commit type. Returns the new
    /// count and the text that is to replace the counter file.
    pub fn increment_count(&self, file: Option<&str>, commit_type: &CommitType) -> (r: Result<
        (u32, String),
        CommitCounterError,
    >)
        requires
            next_count(file_text(file), commit_type@.code()) <= u32::MAX,
        ensures
            match updated(
                file_text(file),
                commit_type@.code(),
                next_count(file_text(file), commit_type@.code()) as u32,
            ) {
                Ok(text) => r matches Ok((n, s)) && n == next_count(
                    file_text(file),
                    commit_type@.code(),
                ) && s@ == text,
                Err(e) => is_parse_error(r, count_failure(e)),
            },
    {
        match self.read_count(file, commit_type) {
            Ok(current_count) => {
                let new_count: u32 = current_count + 1;
                match self.update_count(file, commit_type, new_count) {
                    Ok(text) => Ok((new_count, text)),
                    Err(e) => Err(e),
                }
            },
            Err(e) => Err(e),
        }
    }

    /// Format a commit message with the branch, type, count, and message
    pub fn format_commit_message(&self, commit_type: &CommitType, count: u32, message: &str) -> (r:
        String)
        ensures
            r@ == message_text(self.branch(), commit_type@.code(), count, message@),
    {
        let code = commit_type.to_display_string();
        let digits = render_count(count);
        String::from_str("[").concat(self.config.branch_name()).concat("] [").concat(
            code.as_str(),
        ).concat(" ").concat(digits.as_str()).concat(" : ").concat(message).concat("]")
    }

    /// Create a commit with the given type and message, up to the point
    /// where the counter file has to be written: takes the next number for
    /// the type and formats the subject with it. The caller replaces the
    /// counter file by the text returned and then calls `complete_commit`.
    pub fn create_commit(&self, file: Option<&str>, commit_type: &CommitType, message: &str) -> (r:
        Result<PendingCommit, CommitCounterError>)
        requires
            next_count(file_text(file), commit_type@.code()) <= u32::MAX,
        ensures
            match updated(
                file_text(file),
                commit_type@.code(),
                next_count(file_text(file), commit_type@.code()) as u32,
            ) {
                Ok(text) => r matches Ok(pending) && pending.count == next_count(
                    file_text(file),
                    commit_type@.code(),
                ) && pending.store_text@ == text && pending.message@ == message_text(
                    self.branch(),
                    commit_type@.code(),
                    pending.count,
                    message@,
                ),
                Err(e) => is_parse_error(r, count_failure(e)),
            },
    {
        match self.increment_count(file, commit_type) {
            Ok((count, store_text)) => {
                let formatted_message = self.format_commit_message(commit_type, count, message);
                Ok(PendingCommit { count, store_text, message: formatted_message })
            },
            Err(e) => Err(e),
        }
    }

    /// Commits with the subject of `pending` through the gateway, and fails
    /// as the gateway fails. The counter file is written before this is
    /// called, so a commit that fails has used up its number all the same.
    pub fn complete_commit(&self, pending: &PendingCommit) -> Result<(), CommitCounterError> {
        self.git_ops.commit(pending.message.as_str())
    }

    /// Show all counters for the current branch: a header that names the
    /// branch, a line for each of the six standard types, then a line for
    /// each other type that the store holds.
    pub fn show_counts(&self, file: Option<&str>) -> (r: Result<String, CommitCounterError>)
        ensures
            match stored(file_text(file)) {
                Ok(entries) => r matches Ok(s) && s@ == report(self.branch(), entries),
                Err(e) => is_parse_error(r, count_failure(e)),
            },
    {
        match self.read_all_counts(file) {
            Ok(store) => {
                let mut output = String::from_str(
                    "\u{f0}\u{178}\u{201c}\u{152} Branch: ",
                ).concat(self.config.branch_name()).concat("\n\n");
                let standard = CommitType::standard_types();
                let ghost header = output@;
                let mut i: usize = 0;
                assert(standard@.len() == 6) by {
                    assert(kinds(standard@).len() == 6);
                }
                while i < standard.len()
                    invariant
                        i <= standard.len() == 6,
                        kinds(standard@) == standard_kinds(),
                        output@ == header + standard_lines(store.entries(), i as int),
                    decreases standard.len() - i,
                {
                    assert(kinds(standard@)[i as int] == standard@[i as int]@);
                    let key = standard[i].to_display_string();
                    let count = store.count(key.as_str());
                    append_report_line(&mut output, key.as_str(), count);
                    i = i + 1;
                }
                let ghost fixed = output@;
                let mut j: usize = 0;
                while j < store.len()
                    invariant
                        j <= store.entries().len(),
                        output@ == fixed + custom_report(store.entries().take(j as int)),
                    decreases store.entries().len() - j,
                {
                    let ghost next = store.entries().take(j + 1);
                    assert(next.drop_last() == store.entries().take(j as int));
                    assert(next.last() == store.entries()[j as int]);
                    let key = store.key_at(j);
                    if !is_standard(key) {
                        append_report_line(&mut output, key, store.count_at(j));
                    }
                    j = j + 1;
                }
                assert(store.entries().take(j as int) == store.entries());
                Ok(output)
            },
            Err(e) => Err(e),
        }
    }

    /// Rebuilds the store from what the gateway answered when it was asked
    /// for the history. Returns the text that is to replace the counter
    /// file: for each type that a subject of this branch records a count
    /// for, the highest of those counts, and nothing else. What the file
    /// held before plays no part. A subject that does not hold the form of a
    /// counted commit is passed over silently.
    ///
    /// Fails as the gateway failed; with a `ParseError` when a matching
    /// subject has digits that are no count; and with a `ValidationError`
    /// when there are subjects but the subject pattern does not compile.
    pub fn sync_with(&self, history: Result<Vec<String>, CommitCounterError>) -> (r: Result<
        String,
        CommitCounterError,
    >)
        ensures
            match history {
                Err(e) => r == Err::<String, CommitCounterError>(e),
                Ok(subjects) => {
                    &&& subjects.len() > 0 && !regex_accepts(SUBJECT_PATTERN@) ==> (r matches Err(
                        CommitCounterError::ValidationError(s),
                    ) && s@ == pattern_failure())
                    &&& subjects.len() == 0 || regex_accepts(SUBJECT_PATTERN@) ==> match reconciled(
                        subject_matches(texts(subjects@)),
                        self.branch(),
                    ) {
                        Ok(entries) => r matches Ok(s) && s@ == written(entries),
                        Err(e) => is_parse_error(r, recorded_count_failure(e)),
                    }
                },
            },
    {
        match history {
            Ok(subjects) => match reconcile(&subjects, self.config.branch_name()) {
                Ok(store) => Ok(store.render()),
                Err(e) => Err(e),
            },
            Err(e) => Err(e),
        }
    }

    /// Sync commit counts with the Git history: asks the gateway for the
    /// history and rebuilds the store from its answer, as `sync_with` says.
    /// Returns the text that is to replace the counter file.
    pub fn sync_counts(&self) -> (r: Result<String, CommitCounterError>)
        ensures
            r matches Ok(s) ==> exists|subjects: Seq<Seq<char>>|
                #[trigger] synced(subjects, self.branch()) == Some(s@),
    {
        let history = self.git_ops.read_first_parent_history();
        let ghost subjects = answered_subjects(history);
        let r = self.sync_with(history);
        assert(r matches Ok(s) ==> synced(subjects, self.branch()) == Some(s@));
        r
    }

    /// The text that replaces the counter file when all counts of the scope
    /// are cleared: no entries.
    pub fn reset_counts(&self) -> (r: String)
        ensures
            r@ == written(Seq::<(Seq<char>, u32)>::empty()),
            stored(Some(r@)) == Ok::<Seq<(Seq<char>, u32)>, NumberError>(Seq::empty()),
    {
        let store = CounterStore::new();
        proof {
            crate::store::lemma_read_written(store.entries());
        }
        store.render()
    }
}

/// Whether `key` is the code of a standard type.
fn is_standard(key: &str) -> (r: bool)
    ensures
        r == is_standard_code(key@),
{
    str_eq(key, "FEAT") || str_eq(key, "FIXE") || str_eq(key, "DOCS") || str_eq(key, "REFA")
        || str_eq(key, "TEST") || str_eq(key, "PERF")
}

/// Appends the line of the report for one type.
fn append_report_line(output: &mut String, key: &str, count: u32)
    ensures
        final(output)@ == old(output)@ + report_line(key@, count),
{
    let ghost before = output@;
    output.append(key);
    let n: usize = key.unicode_len();
    let mut i: usize = n;
    while i < 6
        invariant
            n == key@.len(),
            n <= i,
            i <= 6 || i == n,
            output@ == before + key@ + Seq::new((i - n) as nat, |k: int| ' '),
        decreases 6 - i,
    {
        let ghost filled = output@;
        push_char(output, ' ');
        assert(Seq::new((i + 1 - n) as nat, |k: int| ' ') == Seq::new(
            (i - n) as nat,
            |k: int| ' ',
        ).push(' '));
        i = i + 1;
    }
    assert(before + key@ + Seq::new((i - n) as nat, |k: int| ' ') == before + padded(key@, 6)) by {
        if n >= 6 {
            assert(key@ + Seq::new(0nat, |k: int| ' ') == key@);
        }
    }
    let digits = render_count(count);
    output.append(": ");
    output.append(digits.as_str());
    output.append("\n");
}

/// What the counter file holds has distinct keys, each of them a field.
pub proof fn lemma_stored_wf(file: Option<Seq<char>>)
    ensures
        stored(file) matches Ok(entries) ==> has_distinct_keys(entries) && has_field_keys(entries),
{
    if let Some(text) = file {
        lemma_read_lines_wf(lines(text));
    }
}

/// After an update the counter file holds what it held, with the count of the
/// updated key set: what `update_count` returns is read back by
/// `read_all_counts` entry by entry. This needs a key that can stand as the
/// first field of a line.
pub proof fn lemma_update_then_read(file: Option<Seq<char>>, key: Seq<char>, count: u32)
    requires
        stored(file) is Ok,
        is_field(key),
    ensures
        updated(file, key, count) is Ok,
        stored(Some(updated(file, key, count)->Ok_0)) == Ok::<Seq<(Seq<char>, u32)>, NumberError>(
            assign(stored(file)->Ok_0, key, count),
        ),
        as_map(stored(Some(updated(file, key, count)->Ok_0))->Ok_0) == as_map(
            stored(file)->Ok_0,
        ).insert(key, count),
{
    let entries = stored(file)->Ok_0;
    lemma_stored_wf(file);
    lemma_assign_keeps_keys_distinct(entries, key, count);
    lemma_assign_keeps_field_keys(entries, key, count);
    lemma_read_written(assign(entries, key, count));
    lemma_assign_is_insert(entries, key, count);
}

/// The counter file after a series of updates, each given as a key and a
/// count, from the first to the last.
pub open spec fn after_updates(file: Option<Seq<char>>, updates: Seq<(Seq<char>, u32)>) -> Option<
    Seq<char>,
>
    decreases updates.len(),
{
    if updates.len() == 0 {
        file
    } else {
        let before = after_updates(file, updates.drop_last());
        match updated(before, updates.last().0, updates.last().1) {
            Ok(text) => Some(text),
            Err(_) => before,
        }
    }
}

/// The mapping that a series of updates describes: each key with the count of
/// its last update.
pub open spec fn updates_map(updates: Seq<(Seq<char>, u32)>) -> Map<Seq<char>, u32>
    decreases updates.len(),
{
    if updates.len() == 0 {
        Map::empty()
    } else {
        updates_map(updates.drop_last()).insert(updates.last().0, updates.last().1)
    }
}

/// A store written by a series of updates, starting without a file, is read
/// back as exactly the mapping that the updates describe. This needs keys
/// that can stand as the first field of a line.
pub proof fn lemma_updates_then_read(updates: Seq<(Seq<char>, u32)>)
    requires
        has_field_keys(updates),
    ensures
        stored(after_updates(None, updates)) is Ok,
        as_map(stored(after_updates(None, updates))->Ok_0) == updates_map(updates),
    decreases updates.len(),
{
    if updates.len() == 0 {
        assert(as_map(Seq::<(Seq<char>, u32)>::empty()) =~= Map::<Seq<char>, u32>::empty());
    } else {
        let head = updates.drop_last();
        assert(has_field_keys(head)) by {
            assert forall|i: int| 0 <= i < head.len() implies is_field((#[trigger] head[i]).0) by {
                assert(head[i] == updates[i]);
            }
        }
        lemma_updates_then_read(head);
        assert(is_field(updates[updates.len() - 1].0));
        lemma_update_then_read(after_updates(None, head), updates.last().0, updates.last().1);
    }
}

/// The counter file after `n` increments of the count of `key`.
pub open spec fn after_increments(file: Option<Seq<char>>, key: Seq<char>, n: nat) -> Option<
    Seq<char>,
>
    decreases n,
{
    if n == 0 {
        file
    } else {
        let before = after_increments(file, key, (n - 1) as nat);
        match updated(before, key, next_count(before, key) as u32) {
            Ok(text) => Some(text),
            Err(_) => before,
        }
    }
}

/// Incrementing the count of one type `n` times in a row gives the counts
/// that follow the one kept at the start, one after the other, and leaves the
/// last of them in the counter file. Starting without a file, the increments
/// return 1, 2, ..., `n`, and `n` is kept. This needs a key that can stand as
/// the first field of a line.
pub proof fn lemma_increments(file: Option<Seq<char>>, key: Seq<char>, n: nat)
    requires
        stored(file) is Ok,
        is_field(key),
        count_of(stored(file)->Ok_0, key) + n <= u32::MAX,
    ensures
        forall|i: nat|
            1 <= i <= n ==> #[trigger] next_count(
                after_increments(file, key, (i - 1) as nat),
                key,
            ) == count_of(stored(file)->Ok_0, key) + i,
        stored(after_increments(file, key, n)) is Ok,
        count_of(stored(after_increments(file, key, n))->Ok_0, key) == count_of(
            stored(file)->Ok_0,
            key,
        ) + n,
    decreases n,
{
    if n > 0 {
        let m = (n - 1) as nat;
        lemma_increments(file, key, m);
        let before = after_increments(file, key, m);
        let count = next_count(before, key) as u32;
        lemma_update_then_read(before, key, count);
        lemma_assign_lookup(stored(before)->Ok_0, key, count, key);
        assert forall|i: nat| 1 <= i <= n implies #[trigger] next_count(
            after_increments(file, key, (i - 1) as nat),
            key,
        ) == count_of(stored(file)->Ok_0, key) + i by {
            if i == n {
                assert((i - 1) as nat == m);
            }
        }
    }
}

/// The code of a standard type can stand as the first field of a line.
pub proof fn lemma_standard_codes_are_fields()
    ensures
        forall|i: int| 0 <= i < 6 ==> is_field(#[trigger] standard_kinds()[i].code()),
{
    reveal_strlit("FEAT");
    reveal_strlit("FIXE");
    reveal_strlit("DOCS");
    reveal_strlit("REFA");
    reveal_strlit("TEST");
    reveal_strlit("PERF");
    assert forall|i: int| 0 <= i < 6 implies is_field(#[trigger] standard_kinds()[i].code()) by {
        let code = standard_kinds()[i].code();
        assert(code.len() == 4);
        assert forall|k: int| 0 <= k < code.len() implies !is_whitespace(#[trigger] code[k]) by {
            assert('A' <= code[k] <= 'Z');
        }
    }
}

/// The report always has a line for each of the six standard types, in their
/// fixed order, between the header and the lines of the other types.
pub proof fn lemma_report_lists_standard_types(branch: Seq<char>, entries: Seq<(Seq<char>, u32)>)
    ensures
        report(branch, entries) == report_header(branch) + (standard_line(
            entries,
            CommitKind::Feature,
        ) + standard_line(entries, CommitKind::Fix) + standard_line(
            entries,
            CommitKind::Documentation,
        ) + standard_line(entries, CommitKind::Refactor) + standard_line(entries, CommitKind::Test)
            + standard_line(entries, CommitKind::Performance)) + custom_report(entries),
{
    reveal_with_fuel(standard_lines, 7);
    assert(standard_lines(entries, 0) + standard_line(entries, CommitKind::Feature)
        == standard_line(entries, CommitKind::Feature));
}

/// For a store without entries the report shows 0 for each standard type,
/// and nothing else.
pub proof fn lemma_report_of_empty_store(branch: Seq<char>)
    ensures
        report(branch, Seq::empty()) == report_header(branch) + ("FEAT  : 0\n"@ + "FIXE  : 0\n"@
            + "DOCS  : 0\n"@ + "REFA  : 0\n"@ + "TEST  : 0\n"@ + "PERF  : 0\n"@),
{
    let none = Seq::<(Seq<char>, u32)>::empty();
    lemma_report_lists_standard_types(branch, none);
    reveal_strlit("FEAT");
    reveal_strlit("FIXE");
    reveal_strlit("DOCS");
    reveal_strlit("REFA");
    reveal_strlit("TEST");
    reveal_strlit("PERF");
    reveal_strlit(": ");
    reveal_strlit("\n");
    reveal_strlit("FEAT  : 0\n");
    reveal_strlit("FIXE  : 0\n");
    reveal_strlit("DOCS  : 0\n");
    reveal_strlit("REFA  : 0\n");
    reveal_strlit("TEST  : 0\n");
    reveal_strlit("PERF  : 0\n");
    assert(decimal(0) == seq!['0']);
    assert(custom_report(none) == Seq::<char>::empty());
    assert(standard_line(none, CommitKind::Feature) == "FEAT  : 0\n"@);
    assert(standard_line(none, CommitKind::Fix) == "FIXE  : 0\n"@);
    assert(standard_line(none, CommitKind::Documentation) == "DOCS  : 0\n"@);
    assert(standard_line(none, CommitKind::Refactor) == "REFA  : 0\n"@);
    assert(standard_line(none, CommitKind::Test) == "TEST  : 0\n"@);
    assert(standard_line(none, CommitKind::Performance) == "PERF  : 0\n"@);
}

} // verus!

//! Counts recovered from the subjects of past commits.
//!
//! A counted commit has a subject of the form
//! `[<branch>] [<type> <count> : <message>]`. Which subjects have that form,
//! and what their parts are, is decided by a regular expression; what the
//! parts mean for the store is decided here.
//!
//! The form is taken strictly and searched anywhere in the subject: text
//! before and behind it is allowed, and a subject that does not hold the form
//! is passed over without a word. Nothing but the form tells a counted
//! commit from another one, so a subject that holds it by chance is counted
//! too.

use vstd::prelude::*;
use vstd::string::*;
use crate::error::CommitCounterError;
use crate::number::{parse_count, parse_u32, NumberError};
use crate::store::{assign, count_of, has_key, lemma_assign_lookup, CounterStore};
use crate::text::{str_eq, texts, trim, trimmed};

verus! {

/// `regex::Error`, the reason why a pattern did not compile.
#[verifier::external_type_specification]
#[verifier::external_body]
pub struct ExRegexError(regex::Error);

/// Whether `regex::Regex::new` compiles `pattern`.
pub uninterp spec fn regex_accepts(pattern: Seq<char>) -> bool;

/// What `regex::Regex::captures` finds in `text` for the regular expression
/// `pattern`: nothing, or the groups of the first match, each with the text it
/// matched if it took part. Group 0 is the whole match.
pub uninterp spec fn regex_groups(pattern: Seq<char>, text: Seq<char>) -> Option<
    Seq<Option<Seq<char>>>,
>;

/// The text of one group.
pub open spec fn group_text(g: Option<String>) -> Option<Seq<char>> {
    match g {
        Some(s) => Some(s@),
        None => None,
    }
}

/// The texts of the groups of one match.
pub open spec fn groups_text(groups: Seq<Option<String>>) -> Seq<Option<Seq<char>>> {
    groups.map_values(|g: Option<String>| group_text(g))
}

/// The texts of what a search found.
pub open spec fn match_text(m: Option<Vec<Option<String>>>) -> Option<Seq<Option<Seq<char>>>> {
    match m {
        Some(groups) => Some(groups_text(groups@)),
        None => None,
    }
}

/// Compiles `pattern` with `regex::Regex::new` and searches `text` with
/// `regex::Regex::captures`.
///
/// The call fails exactly when the pattern does not compile. Otherwise its
/// result is what the search found, group by group: both depend on the two
/// texts alone, and the contract says no more than that.
#[verifier::external_body]
fn regex_captures(pattern: &str, text: &str) -> (r: Result<
    Option<Vec<Option<String>>>,
    regex::Error,
>)
    ensures
        r is Ok <==> regex_accepts(pattern@),
        r matches Ok(m) ==> match_text(m) == regex_groups(pattern@, text@),
{
    let re = regex::Regex::new(pattern)?;
    Ok(re.captures(text).map(|c| c.iter().map(|g| g.map(|m| m.as_str().to_string())).collect()))
}

/// The regular expression for the subject of a counted commit. Its groups
/// are, in order: the branch, the type, the digits of the count, the message.
///
/// The expression is not anchored: it is searched anywhere in a subject, and
/// the first place where it matches counts. A subject in which it matches
/// nowhere is passed over silently; it is no error.
pub const SUBJECT_PATTERN: &'static str = r"\[(.*?)\]\s*\[(.*?)\s*(\d+)\s*:\s*(.*)\]";

/// The text of group `i`, or `default` where the group is missing or took no
/// part in the match.
pub open spec fn group_or(groups: Seq<Option<Seq<char>>>, i: int, default: Seq<char>) -> Seq<
    char,
> {
    if 0 <= i < groups.len() {
        match groups[i] {
            Some(s) => s,
            None => default,
        }
    } else {
        default
    }
}

/// What the groups of a matching subject record: the branch, the key of the
/// type, and the count. The key is the type without the whitespace around
/// it. Digits that are no count are an error.
pub open spec fn sighting(groups: Seq<Option<Seq<char>>>) -> Result<
    (Seq<char>, Seq<char>, u32),
    NumberError,
> {
    match parse_u32(group_or(groups, 3, "0"@)) {
        Ok(n) => Ok((group_or(groups, 1, ""@), trimmed(group_or(groups, 2, ""@)), n)),
        Err(e) => Err(e),
    }
}

/// The entries after one more matching subject: a count recorded for
/// `branch` is kept for its key if nothing is kept for that key yet, and
/// replaces what is kept if it is higher.
pub open spec fn observed(
    entries: Seq<(Seq<char>, u32)>,
    branch: Seq<char>,
    groups: Seq<Option<Seq<char>>>,
) -> Result<Seq<(Seq<char>, u32)>, NumberError> {
    match sighting(groups) {
        Ok((recorded_branch, key, n)) => {
            if recorded_branch == branch && (!has_key(entries, key) || n > count_of(
                entries,
                key,
            )) {
                Ok(assign(entries, key, n))
            } else {
                Ok(entries)
            }
        },
        Err(e) => Err(e),
    }
}

/// The entries that a history stands for on `branch`, given what the search
/// found in each of its subjects, from the first subject to the last. The
/// first matching subject whose digits are no count decides the error,
/// whatever branch it names.
pub open spec fn reconciled(
    matches: Seq<Option<Seq<Option<Seq<char>>>>>,
    branch: Seq<char>,
) -> Result<Seq<(Seq<char>, u32)>, NumberError>
    decreases matches.len(),
{
    if matches.len() == 0 {
        Ok(Seq::empty())
    } else {
        match reconciled(matches.drop_last(), branch) {
            Ok(entries) => match matches.last() {
                Some(groups) => observed(entries, branch, groups),
                None => Ok(entries),
            },
            Err(e) => Err(e),
        }
    }
}

/// What the search for the subject pattern finds in each of the subjects.
pub open spec fn subject_matches(subjects: Seq<Seq<char>>) -> Seq<Option<Seq<Option<Seq<char>>>>> {
    subjects.map_values(|s: Seq<char>| regex_groups(SUBJECT_PATTERN@, s))
}

/// The sentence of the error for recorded digits that are no count.
pub open spec fn recorded_count_failure(e: NumberError) -> Seq<char> {
    "Invalid count in message: "@ + e.text()
}

/// The sentence of the error for a subject pattern that does not compile.
pub open spec fn pattern_failure() -> Seq<char> {
    "Subject pattern rejected"@
}

/// Whether the match `m` records the count `n` for `key` on `branch`.
pub open spec fn records(
    m: Option<Seq<Option<Seq<char>>>>,
    branch: Seq<char>,
    key: Seq<char>,
    n: u32,
) -> bool {
    m matches Some(groups) && sighting(groups) == Ok::<(Seq<char>, Seq<char>, u32), NumberError>(
        (branch, key, n),
    )
}

/// The text of group `i`, or `default` where the group is missing or took no
/// part in the match.
fn group_text_or<'a>(groups: &'a Vec<Option<String>>, i: usize, default: &'a str) -> (r: &'a str)
    ensures
        r@ == group_or(groups_text(groups@), i as int, default@),
{
    if i < groups.len() {
        match &groups[i] {
            Some(s) => s.as_str(),
            None => default,
        }
    } else {
        default
    }
}

/// Takes one matching subject into the store: if it records a count for
/// `branch`, and the store keeps nothing for its type or a lower count, the
/// store keeps the recorded count.
///
/// `groups` holds the groups of the match, the whole match first. Fails, and
/// leaves the store as it was, exactly when the recorded digits are no count.
pub fn observe(store: &mut CounterStore, branch: &str, groups: &Vec<Option<String>>) -> (r: Result<
    (),
    NumberError,
>)
    ensures
        match observed(old(store).entries(), branch@, groups_text(groups@)) {
            Ok(entries) => r is Ok && final(store).entries() == entries,
            Err(e) => r == Err::<(), NumberError>(e) && final(store).entries() == old(
                store,
            ).entries(),
        },
        old(store).wf() ==> final(store).wf(),
{
    let recorded_branch = group_text_or(groups, 1, "");
    let token = group_text_or(groups, 2, "");
    let digits = group_text_or(groups, 3, "0");
    match parse_count(digits) {
        Ok(n) => {
            if str_eq(recorded_branch, branch) {
                let key = trim(token);
                let higher = match store.get(key.as_str()) {
                    Some(kept) => n > kept,
                    None => true,
                };
                if higher {
                    store.set(key.as_str(), n);
                }
            }
            Ok(())
        },
        Err(e) => Err(e),
    }
}

/// Rebuilds the store of `branch` from the subjects of its history, in
/// whatever order they come: for each type that a subject of this branch
/// records a count for, the highest of those counts.
///
/// The subject pattern is searched anywhere in a subject. A subject that does
/// not hold it is passed over silently, and so is one that names another
/// branch.
///
/// Fails with a `ParseError` when a matching subject has digits that are no
/// count, and with a `ValidationError` when there are subjects but the subject
/// pattern does not compile.
pub fn reconcile(subjects: &Vec<String>, branch: &str) -> (r: Result<
    CounterStore,
    CommitCounterError,
>)
    ensures
        subjects.len() > 0 && !regex_accepts(SUBJECT_PATTERN@) ==> (r matches Err(
            CommitCounterError::ValidationError(s),
        ) && s@ == pattern_failure()),
        subjects.len() == 0 || regex_accepts(SUBJECT_PATTERN@) ==> match reconciled(
            subject_matches(texts(subjects@)),
            branch@,
        ) {
            Ok(entries) => r matches Ok(store) && store.wf() && store.entries() == entries,
            Err(e) => r matches Err(CommitCounterError::ParseError(s)) && s@
                == recorded_count_failure(e),
        },
{
    let mut store = CounterStore::new();
    let ghost all = subject_matches(texts(subjects@));
    let mut i: usize = 0;
    while i < subjects.len()
        invariant
            i <= subjects.len(),
            all == subject_matches(texts(subjects@)),
            i > 0 ==> regex_accepts(SUBJECT_PATTERN@),
            store.wf(),
            reconciled(all.take(i as int), branch@) == Ok::<Seq<(Seq<char>, u32)>, NumberError>(
                store.entries(),
            ),
        decreases subjects.len() - i,
    {
        let ghost next = all.take(i + 1);
        assert(next.drop_last() == all.take(i as int));
        assert(next.last() == regex_groups(SUBJECT_PATTERN@, subjects@[i as int]@));
        match regex_captures(SUBJECT_PATTERN, subjects[i].as_str()) {
            Err(_) => {
                return Err(
                    CommitCounterError::ValidationError(
                        String::from_str("Subject pattern rejected"),
                    ),
                );
            },
            Ok(None) => {},
            Ok(Some(groups)) => {
                match observe(&mut store, branch, &groups) {
                    Ok(()) => {},
                    Err(e) => {
                        proof {
                            lemma_reconciled_fails_on(all, branch@, i + 1);
                        }
                        let sentence = String::from_str("Invalid count in message: ").concat(
                            e.message(),
                        );
                        return Err(CommitCounterError::ParseError(sentence));
                    },
                }
            },
        }
        i = i + 1;
    }
    assert(all.take(i as int) == all);
    Ok(store)
}

/// Once a prefix of a history cannot be reconciled, the whole cannot, and for
/// the same reason.
pub proof fn lemma_reconciled_fails_on(
    matches: Seq<Option<Seq<Option<Seq<char>>>>>,
    branch: Seq<char>,
    k: int,
)
    requires
        0 <= k <= matches.len(),
        reconciled(matches.take(k), branch) is Err,
    ensures
        reconciled(matches, branch) == reconciled(matches.take(k), branch),
    decreases matches.len() - k,
{
    if k == matches.len() {
        assert(matches.take(k) == matches);
    } else {
        assert(matches.take(k + 1).drop_last() == matches.take(k));
        lemma_reconciled_fails_on(matches, branch, k + 1);
    }
}

/// What reconciling keeps for a type is the highest count that a subject of
/// the branch records for it: a type has an entry exactly if some subject of
/// the branch records a count for it, no recorded count is higher than the
/// one that is kept, and the count that is kept was recorded.
pub proof fn lemma_reconciled_is_highest(
    matches: Seq<Option<Seq<Option<Seq<char>>>>>,
    branch: Seq<char>,
    key: Seq<char>,
)
    requires
        reconciled(matches, branch) is Ok,
    ensures
        has_key(reconciled(matches, branch)->Ok_0, key) <==> exists|i: int, n: u32|
            0 <= i < matches.len() && #[trigger] records(matches[i], branch, key, n),
        forall|i: int, n: u32|
            0 <= i < matches.len() && #[trigger] records(matches[i], branch, key, n) ==> n
                <= count_of(reconciled(matches, branch)->Ok_0, key),
        has_key(reconciled(matches, branch)->Ok_0, key) ==> exists|i: int|
            0 <= i < matches.len() && #[trigger] records(
                matches[i],
                branch,
                key,
                count_of(reconciled(matches, branch)->Ok_0, key),
            ),
    decreases matches.len(),
{
    let after = reconciled(matches, branch)->Ok_0;
    if matches.len() > 0 {
        let head = matches.drop_last();
        let before = reconciled(head, branch)->Ok_0;
        lemma_reconciled_is_highest(head, branch, key);
        let last = matches.len() - 1;
        assert forall|i: int| 0 <= i < head.len() implies head[i] == matches[i] by {}
        if let Some(groups) = matches.last() {
            let (recorded_branch, recorded_key, n) = sighting(groups)->Ok_0;
            if recorded_branch == branch {
                if !has_key(before, recorded_key) || n > count_of(before, recorded_key) {
                    lemma_assign_lookup(before, recorded_key, n, key);
                }
                if recorded_key == key {
                    assert(records(matches[last], branch, key, n));
                }
            }
        }
        assert forall|i: int, n: u32|
            0 <= i < matches.len() && #[trigger] records(matches[i], branch, key, n) implies n
            <= count_of(after, key) && has_key(after, key) by {
            if i < last {
                assert(records(head[i], branch, key, n));
            }
        }
        if has_key(after, key) {
            if has_key(before, key) && count_of(after, key) == count_of(before, key) {
                let i = choose|i: int|
                    0 <= i < head.len() && #[trigger] records(
                        head[i],
                        branch,
                        key,
                        count_of(before, key),
                    );
                assert(records(matches[i], branch, key, count_of(after, key)));
            } else {
                assert(records(matches[last], branch, key, count_of(after, key)));
            }
        }
    }
}

} // verus!

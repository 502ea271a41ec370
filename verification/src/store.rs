//! The counter store: one count per type, and the text it is kept as.
//!
//! A store is a list of entries with distinct keys. Its text has one line per
//! entry, the key and the count separated by a blank. Reading is lenient about
//! layout and strict about numbers: a line that does not consist of exactly
//! two fields is passed over, and a second field that is not a count is an
//! error.

use vstd::prelude::*;
use vstd::string::*;
use crate::error::CommitCounterError;
use crate::number::{
    decimal, lemma_decimal_is_field, lemma_parse_decimal, parse_count, parse_u32,
    render_count, NumberError,
};
use crate::text::{
    fields, is_field, is_whitespace, lemma_fields_are_fields, lemma_fields_of_pair,
    lemma_lines_append, lemma_lines_line_feed, lines, push_char, split_fields, split_lines,
    str_eq, texts,
};

verus! {

/// The position of the first entry with the key `key`, or the number of
/// entries if there is none.
pub open spec fn key_index(entries: Seq<(Seq<char>, u32)>, key: Seq<char>) -> int
    decreases entries.len(),
{
    if entries.len() == 0 || entries[0].0 == key {
        0
    } else {
        1 + key_index(entries.drop_first(), key)
    }
}

/// Whether some entry has the key `key`.
pub open spec fn has_key(entries: Seq<(Seq<char>, u32)>, key: Seq<char>) -> bool {
    key_index(entries, key) < entries.len()
}

/// The count kept for `key`, if there is one.
pub open spec fn lookup(entries: Seq<(Seq<char>, u32)>, key: Seq<char>) -> Option<u32> {
    if has_key(entries, key) {
        Some(entries[key_index(entries, key)].1)
    } else {
        None
    }
}

/// The count kept for `key`, and 0 if there is none.
pub open spec fn count_of(entries: Seq<(Seq<char>, u32)>, key: Seq<char>) -> u32 {
    match lookup(entries, key) {
        Some(n) => n,
        None => 0,
    }
}

/// The entries after `key` has been given the count `count`: its entry is
/// overwritten in place, or a new entry is added at the end.
pub open spec fn assign(entries: Seq<(Seq<char>, u32)>, key: Seq<char>, count: u32) -> Seq<
    (Seq<char>, u32),
> {
    if has_key(entries, key) {
        entries.update(key_index(entries, key), (key, count))
    } else {
        entries.push((key, count))
    }
}

/// No key occurs twice.
pub open spec fn has_distinct_keys(entries: Seq<(Seq<char>, u32)>) -> bool {
    forall|i: int, j: int|
        0 <= i < j < entries.len() ==> (#[trigger] entries[i]).0 != (#[trigger] entries[j]).0
}

/// Every key can stand as the first field of a line.
pub open spec fn has_field_keys(entries: Seq<(Seq<char>, u32)>) -> bool {
    forall|i: int| 0 <= i < entries.len() ==> is_field((#[trigger] entries[i]).0)
}

/// The entries as a mapping from key to count.
pub open spec fn as_map(entries: Seq<(Seq<char>, u32)>) -> Map<Seq<char>, u32> {
    Map::new(|k: Seq<char>| has_key(entries, k), |k: Seq<char>| entries[key_index(entries, k)].1)
}

/// The line that is written for one entry, without its line feed.
pub open spec fn row(entry: (Seq<char>, u32)) -> Seq<char> {
    entry.0 + seq![' '] + decimal(entry.1 as nat)
}

/// The text that is written for the entries: one line each, in order, each
/// closed by a line feed.
pub open spec fn written(entries: Seq<(Seq<char>, u32)>) -> Seq<char>
    decreases entries.len(),
{
    if entries.len() == 0 {
        Seq::empty()
    } else {
        written(entries.drop_last()) + row(entries.last()) + seq!['\n']
    }
}

/// What one more line does to the entries read so far.
pub open spec fn read_line(entries: Seq<(Seq<char>, u32)>, line: Seq<char>) -> Result<
    Seq<(Seq<char>, u32)>,
    NumberError,
> {
    let f = fields(line);
    if f.len() == 2 {
        match parse_u32(f[1]) {
            Ok(n) => Ok(assign(entries, f[0], n)),
            Err(e) => Err(e),
        }
    } else {
        Ok(entries)
    }
}

/// The entries that a list of lines stands for, or the error of the first
/// line whose count cannot be read. A later line for the same key overrides
/// an earlier one.
pub open spec fn read_lines(ls: Seq<Seq<char>>) -> Result<Seq<(Seq<char>, u32)>, NumberError>
    decreases ls.len(),
{
    if ls.len() == 0 {
        Ok(Seq::empty())
    } else {
        match read_lines(ls.drop_last()) {
            Ok(entries) => read_line(entries, ls.last()),
            Err(e) => Err(e),
        }
    }
}

/// The entries that a text stands for.
pub open spec fn read_text(text: Seq<char>) -> Result<Seq<(Seq<char>, u32)>, NumberError> {
    read_lines(lines(text))
}

/// The lines that are written for the entries, without their line feeds.
pub open spec fn rows(entries: Seq<(Seq<char>, u32)>) -> Seq<Seq<char>> {
    entries.map_values(|e: (Seq<char>, u32)| row(e))
}

/// The sentence of the error for a count that cannot be read.
pub open spec fn count_failure(e: NumberError) -> Seq<char> {
    "Failed to parse count: "@ + e.text()
}

/// One type's count.
struct CountEntry {
    key: String,
    count: u32,
}

/// The counts of one scope: at most one entry per key, in the order in which
/// the keys came.
pub struct CounterStore {
    entries: Vec<CountEntry>,
}

impl View for CounterStore {
    type V = Map<Seq<char>, u32>;

    /// The store as a mapping from key to count.
    open spec fn view(&self) -> Map<Seq<char>, u32> {
        as_map(self.entries())
    }
}

impl CounterStore {
    /// The keys with their counts, in order.
    pub closed spec fn entries(&self) -> Seq<(Seq<char>, u32)> {
        self.entries@.map_values(|e: CountEntry| (e.key@, e.count))
    }

    /// The invariant of a store: no key occurs twice.
    pub open spec fn wf(&self) -> bool {
        has_distinct_keys(self.entries())
    }

    /// A store without entries.
    pub fn new() -> (r: CounterStore)
        ensures
            r.wf(),
            r.entries() == Seq::<(Seq<char>, u32)>::empty(),
            r@ == Map::<Seq<char>, u32>::empty(),
    {
        let r = CounterStore { entries: Vec::new() };
        assert(r.entries() == Seq::<(Seq<char>, u32)>::empty());
        assert(r@ =~= Map::<Seq<char>, u32>::empty());
        r
    }

    /// The number of entries.
    pub fn len(&self) -> (r: usize)
        ensures
            r == self.entries().len(),
    {
        self.entries.len()
    }

    /// The key of the entry at position `i`.
    pub fn key_at(&self, i: usize) -> (r: &str)
        requires
            i < self.entries().len(),
        ensures
            r@ == self.entries()[i as int].0,
    {
        self.entries[i].key.as_str()
    }

    /// The count of the entry at position `i`.
    pub fn count_at(&self, i: usize) -> (r: u32)
        requires
            i < self.entries().len(),
        ensures
            r == self.entries()[i as int].1,
    {
        self.entries[i].count
    }

    /// The position of the entry for `key`, or the number of entries.
    fn find(&self, key: &str) -> (r: usize)
        ensures
            r == key_index(self.entries(), key@),
    {
        let mut i: usize = 0;
        assert(self.entries().skip(0) == self.entries());
        while i < self.entries.len()
            invariant
                i <= self.entries.len(),
                key_index(self.entries(), key@) == i + key_index(
                    self.entries().skip(i as int),
                    key@,
                ),
            decreases self.entries.len() - i,
        {
            let ghost rest = self.entries().skip(i as int);
            assert(rest[0] == self.entries()[i as int]);
            if str_eq(self.entries[i].key.as_str(), key) {
                return i;
            }
            assert(rest.drop_first() == self.entries().skip(i + 1));
            i = i + 1;
        }
        assert(self.entries().skip(i as int).len() == 0);
        i
    }

    /// The count kept for `key`, if there is one.
    pub fn get(&self, key: &str) -> (r: Option<u32>)
        ensures
            r == lookup(self.entries(), key@),
            r == if self@.contains_key(key@) {
                Some(self@[key@])
            } else {
                None
            },
    {
        let i = self.find(key);
        if i < self.entries.len() {
            Some(self.entries[i].count)
        } else {
            None
        }
    }

    /// The count kept for `key`, and 0 if there is none.
    pub fn count(&self, key: &str) -> (r: u32)
        ensures
            r == count_of(self.entries(), key@),
    {
        match self.get(key) {
            Some(n) => n,
            None => 0,
        }
    }

    /// Gives `key` the count `count`, whether or not it had one.
    pub fn set(&mut self, key: &str, count: u32)
        ensures
            final(self).entries() == assign(old(self).entries(), key@, count),
            final(self)@ == old(self)@.insert(key@, count),
            old(self).wf() ==> final(self).wf(),
    {
        proof {
            if self.wf() {
                lemma_assign_keeps_keys_distinct(self.entries(), key@, count);
            }
            lemma_assign_is_insert(self.entries(), key@, count);
        }
        let i = self.find(key);
        let entry = CountEntry { key: String::from_str(key), count };
        let ghost before = self.entries();
        if i < self.entries.len() {
            self.entries.set(i, entry);
            assert(self.entries() == before.update(i as int, (key@, count)));
        } else {
            self.entries.push(entry);
            assert(self.entries() == before.push((key@, count)));
        }
    }

    /// The text that stands for the store.
    pub fn render(&self) -> (r: String)
        ensures
            r@ == written(self.entries()),
    {
        let mut out = String::new();
        let mut i: usize = 0;
        while i < self.entries.len()
            invariant
                i <= self.entries.len(),
                out@ == written(self.entries().take(i as int)),
            decreases self.entries.len() - i,
        {
            let ghost before = out@;
            let ghost next = self.entries().take(i + 1);
            assert(next.drop_last() == self.entries().take(i as int));
            assert(next.last() == self.entries()[i as int]);
            out.append(self.entries[i].key.as_str());
            push_char(&mut out, ' ');
            let digits = render_count(self.entries[i].count);
            out.append(digits.as_str());
            push_char(&mut out, '\n');
            assert(out@ == before + row(next.last()) + seq!['\n']);
            i = i + 1;
        }
        assert(self.entries().take(i as int) == self.entries());
        out
    }

    /// Reads a store from its text.
    ///
    /// Fails with a `ParseError` exactly when some line of two fields has a
    /// second field that is not a count; the first such line decides the
    /// sentence.
    pub fn parse(text: &str) -> (r: Result<CounterStore, CommitCounterError>)
        ensures
            match read_text(text@) {
                Ok(entries) => r matches Ok(store) && store.wf() && store.entries() == entries,
                Err(e) => r matches Err(CommitCounterError::ParseError(s)) && s@ == count_failure(e),
            },
    {
        let ls = split_lines(text);
        let mut store = CounterStore::new();
        let mut i: usize = 0;
        while i < ls.len()
            invariant
                i <= ls.len(),
                store.wf(),
                texts(ls@) == lines(text@),
                read_lines(lines(text@).take(i as int)) == Ok::<
                    Seq<(Seq<char>, u32)>,
                    NumberError,
                >(store.entries()),
            decreases ls.len() - i,
        {
            let ghost next = lines(text@).take(i + 1);
            assert(next.drop_last() == lines(text@).take(i as int));
            assert(next.last() == ls@[i as int]@);
            let parts = split_fields(ls[i].as_str());
            if parts.len() == 2 {
                assert(texts(parts@)[0] == parts@[0]@);
                assert(texts(parts@)[1] == parts@[1]@);
                match parse_count(parts[1].as_str()) {
                    Ok(n) => {
                        store.set(parts[0].as_str(), n);
                    },
                    Err(e) => {
                        proof {
                            lemma_read_lines_fails_on(lines(text@), i + 1);
                        }
                        let sentence = String::from_str("Failed to parse count: ").concat(
                            e.message(),
                        );
                        return Err(CommitCounterError::ParseError(sentence));
                    },
                }
            }
            i = i + 1;
        }
        assert(lines(text@).take(i as int) == lines(text@));
        Ok(store)
    }
}

/// Once a prefix of the lines cannot be read, the whole cannot, and for the
/// same reason.
pub proof fn lemma_read_lines_fails_on(ls: Seq<Seq<char>>, k: int)
    requires
        0 <= k <= ls.len(),
        read_lines(ls.take(k)) is Err,
    ensures
        read_lines(ls) == read_lines(ls.take(k)),
    decreases ls.len() - k,
{
    if k == ls.len() {
        assert(ls.take(k) == ls);
    } else {
        assert(ls.take(k + 1).drop_last() == ls.take(k));
        lemma_read_lines_fails_on(ls, k + 1);
    }
}

/// Where `key_index` points, and what lies before it.
pub proof fn lemma_key_index(entries: Seq<(Seq<char>, u32)>, key: Seq<char>)
    ensures
        0 <= key_index(entries, key) <= entries.len(),
        has_key(entries, key) ==> entries[key_index(entries, key)].0 == key,
        forall|i: int| 0 <= i < key_index(entries, key) ==> (#[trigger] entries[i]).0 != key,
    decreases entries.len(),
{
    if entries.len() == 0 || entries[0].0 == key {
    } else {
        let rest = entries.drop_first();
        lemma_key_index(rest, key);
        assert forall|i: int| 0 <= i < key_index(entries, key) implies (#[trigger] entries[i]).0
            != key by {
            if i > 0 {
                assert(entries[i] == rest[i - 1]);
            }
        }
    }
}

/// The first entry with the key is where `key_index` points.
pub proof fn lemma_key_index_is(entries: Seq<(Seq<char>, u32)>, key: Seq<char>, k: int)
    requires
        0 <= k <= entries.len(),
        forall|i: int| 0 <= i < k ==> (#[trigger] entries[i]).0 != key,
        k < entries.len() ==> entries[k].0 == key,
    ensures
        key_index(entries, key) == k,
{
    lemma_key_index(entries, key);
    let found = key_index(entries, key);
    if found < k {
        assert(entries[found].0 != key);
    }
}

/// Giving a key a count keeps the keys distinct.
pub proof fn lemma_assign_keeps_keys_distinct(
    entries: Seq<(Seq<char>, u32)>,
    key: Seq<char>,
    count: u32,
)
    requires
        has_distinct_keys(entries),
    ensures
        has_distinct_keys(assign(entries, key, count)),
{
    lemma_key_index(entries, key);
    let after = assign(entries, key, count);
    let k = key_index(entries, key);
    assert forall|i: int, j: int| 0 <= i < j < after.len() implies (#[trigger] after[i]).0 != (
    #[trigger] after[j]).0 by {
        if has_key(entries, key) {
            assert(after[i].0 == entries[i].0);
            assert(after[j].0 == entries[j].0);
        } else {
            if j == entries.len() {
                assert(after[i] == entries[i]);
            } else {
                assert(after[i] == entries[i]);
                assert(after[j] == entries[j]);
            }
        }
    }
}

/// After a key has been given a count, that count is kept for it, and every
/// other key has what it had.
pub proof fn lemma_assign_lookup(
    entries: Seq<(Seq<char>, u32)>,
    key: Seq<char>,
    count: u32,
    other: Seq<char>,
)
    ensures
        lookup(assign(entries, key, count), key) == Some(count),
        other != key ==> lookup(assign(entries, key, count), other) == lookup(entries, other),
{
    let after = assign(entries, key, count);
    let k = key_index(entries, key);
    lemma_key_index(entries, key);
    assert forall|i: int| 0 <= i < k implies (#[trigger] after[i]).0 != key by {
        assert(after[i] == entries[i]);
    }
    lemma_key_index_is(after, key, k);
    if other != key {
        let m = key_index(entries, other);
        lemma_key_index(entries, other);
        assert forall|i: int| 0 <= i < m implies (#[trigger] after[i]).0 != other by {
            if i < entries.len() {
                assert(after[i].0 == entries[i].0 || after[i].0 == key);
            }
        }
        if m < entries.len() {
            assert(m != k);
            assert(after[m] == entries[m]);
            lemma_key_index_is(after, other, m);
        } else {
            assert forall|i: int| 0 <= i < after.len() implies (#[trigger] after[i]).0
                != other by {
                if i < entries.len() {
                    assert(after[i].0 == entries[i].0 || after[i].0 == key);
                }
            }
            lemma_key_index_is(after, other, after.len() as int);
        }
    }
}

/// As a mapping, giving a key a count is an insertion.
pub proof fn lemma_assign_is_insert(entries: Seq<(Seq<char>, u32)>, key: Seq<char>, count: u32)
    ensures
        as_map(assign(entries, key, count)) == as_map(entries).insert(key, count),
{
    let after = assign(entries, key, count);
    assert forall|k: Seq<char>| #[trigger]
        as_map(after).dom().contains(k) == as_map(entries).insert(key, count).dom().contains(
            k,
        ) by {
        lemma_assign_lookup(entries, key, count, k);
    }
    assert forall|k: Seq<char>| #[trigger] as_map(after).dom().contains(k) implies as_map(after)[k]
        == as_map(entries).insert(key, count)[k] by {
        lemma_assign_lookup(entries, key, count, k);
    }
    assert(as_map(after) =~= as_map(entries).insert(key, count));
}

/// Giving a field as key a count keeps every key a field.
pub proof fn lemma_assign_keeps_field_keys(
    entries: Seq<(Seq<char>, u32)>,
    key: Seq<char>,
    count: u32,
)
    requires
        has_field_keys(entries),
        is_field(key),
    ensures
        has_field_keys(assign(entries, key, count)),
{
    lemma_key_index(entries, key);
    let after = assign(entries, key, count);
    assert forall|i: int| 0 <= i < after.len() implies is_field((#[trigger] after[i]).0) by {
        if i < entries.len() && after[i] != (key, count) {
            assert(after[i] == entries[i]);
        }
    }
}

/// What is read from lines has distinct keys, each of them a field.
pub proof fn lemma_read_lines_wf(ls: Seq<Seq<char>>)
    ensures
        read_lines(ls) matches Ok(entries) ==> has_distinct_keys(entries) && has_field_keys(
            entries,
        ),
    decreases ls.len(),
{
    if ls.len() > 0 {
        lemma_read_lines_wf(ls.drop_last());
        if let Ok(before) = read_lines(ls.drop_last()) {
            let f = fields(ls.last());
            if f.len() == 2 {
                if let Ok(n) = parse_u32(f[1]) {
                    lemma_fields_are_fields(ls.last());
                    lemma_assign_keeps_keys_distinct(before, f[0], n);
                    lemma_assign_keeps_field_keys(before, f[0], n);
                }
            }
        }
    }
}

/// The written text has the rows as its lines, and an empty line behind the
/// last line feed.
pub proof fn lemma_lines_of_written(entries: Seq<(Seq<char>, u32)>)
    requires
        has_field_keys(entries),
    ensures
        lines(written(entries)) == rows(entries).push(Seq::<char>::empty()),
    decreases entries.len(),
{
    if entries.len() == 0 {
        assert(rows(entries).push(Seq::<char>::empty()) == seq![Seq::<char>::empty()]);
    } else {
        let head = entries.drop_last();
        let last = entries.last();
        assert(has_field_keys(head)) by {
            assert forall|i: int| 0 <= i < head.len() implies is_field((#[trigger] head[i]).0) by {
                assert(head[i] == entries[i]);
            }
        }
        lemma_lines_of_written(head);
        let r = row(last);
        assert forall|i: int| 0 <= i < r.len() implies #[trigger] r[i] != '\n' by {
            lemma_decimal_is_field(last.1 as nat);
            assert(is_whitespace('\n'));
            assert(is_field(last.0));
            if i < last.0.len() {
                assert(r[i] == last.0[i]);
            } else if i > last.0.len() {
                let digit = decimal(last.1 as nat)[i - last.0.len() - 1];
                assert(r[i] == digit);
                assert(!is_whitespace(digit));
            }
        }
        lemma_lines_append(written(head), r);
        lemma_lines_line_feed(written(head) + r);
        assert(written(entries) == (written(head) + r).push('\n'));
        assert(Seq::<char>::empty() + r == r);
        assert(rows(head).push(Seq::<char>::empty()).drop_last() == rows(head));
        assert(rows(head).push(r) == rows(entries));
    }
}

/// The rows of a store are read back as its entries.
pub proof fn lemma_read_rows(entries: Seq<(Seq<char>, u32)>)
    requires
        has_distinct_keys(entries),
        has_field_keys(entries),
    ensures
        read_lines(rows(entries)) == Ok::<Seq<(Seq<char>, u32)>, NumberError>(entries),
    decreases entries.len(),
{
    if entries.len() == 0 {
        assert(entries == Seq::<(Seq<char>, u32)>::empty());
    } else {
        let head = entries.drop_last();
        let last = entries.last();
        assert(has_field_keys(head) && has_distinct_keys(head)) by {
            assert forall|i: int| 0 <= i < head.len() implies is_field((#[trigger] head[i]).0) by {
                assert(head[i] == entries[i]);
            }
            assert forall|i: int, j: int| 0 <= i < j < head.len() implies (#[trigger] head[i]).0
                != (#[trigger] head[j]).0 by {
                assert(head[i] == entries[i]);
                assert(head[j] == entries[j]);
            }
        }
        lemma_read_rows(head);
        assert(rows(entries).drop_last() == rows(head));
        assert(rows(entries).last() == row(last));
        lemma_decimal_is_field(last.1 as nat);
        assert(is_field(last.0));
        lemma_fields_of_pair(last.0, decimal(last.1 as nat));
        lemma_parse_decimal(last.1);
        assert forall|i: int| 0 <= i < head.len() implies (#[trigger] head[i]).0 != last.0 by {
            assert(head[i] == entries[i]);
        }
        lemma_key_index_is(head, last.0, head.len() as int);
        assert(head.push((last.0, last.1)) == entries);
    }
}

/// What is written for a store is read back as that store, entry by entry,
/// provided every key is a field.
pub proof fn lemma_read_written(entries: Seq<(Seq<char>, u32)>)
    requires
        has_distinct_keys(entries),
        has_field_keys(entries),
    ensures
        read_text(written(entries)) == Ok::<Seq<(Seq<char>, u32)>, NumberError>(entries),
{
    lemma_lines_of_written(entries);
    lemma_read_rows(entries);
    let ls = rows(entries).push(Seq::<char>::empty());
    assert(ls.drop_last() == rows(entries));
    assert(fields(ls.last()).len() == 0);
}

} // verus!

//! Text as sequences of characters: whitespace, trimming, fields and lines.
//!
//! Everything the counter reads or writes is short, line-oriented text. The
//! functions here take `&str`, work on its characters, and state their results
//! over `Seq<char>`.

use vstd::prelude::*;

verus! {

/// The characters that separate fields and are removed by trimming: the code
/// points with the Unicode property `White_Space`.
pub open spec fn is_whitespace(c: char) -> bool {
    let n = c as u32;
    ||| 0x09 <= n <= 0x0D
    ||| n == 0x20
    ||| n == 0x85
    ||| n == 0xA0
    ||| n == 0x1680
    ||| 0x2000 <= n <= 0x200A
    ||| n == 0x2028
    ||| n == 0x2029
    ||| n == 0x202F
    ||| n == 0x205F
    ||| n == 0x3000
}

/// `s` without its leading whitespace.
pub open spec fn skip_whitespace(s: Seq<char>) -> Seq<char>
    decreases s.len(),
{
    if s.len() > 0 && is_whitespace(s[0]) {
        skip_whitespace(s.drop_first())
    } else {
        s
    }
}

/// `s` without its trailing whitespace.
pub open spec fn trim_end(s: Seq<char>) -> Seq<char>
    decreases s.len(),
{
    if s.len() > 0 && is_whitespace(s.last()) {
        trim_end(s.drop_last())
    } else {
        s
    }
}

/// `s` without leading and trailing whitespace.
pub open spec fn trimmed(s: Seq<char>) -> Seq<char> {
    trim_end(skip_whitespace(s))
}

/// Whether no character of `s` is whitespace.
pub open spec fn has_no_whitespace(s: Seq<char>) -> bool {
    forall|i: int| 0 <= i < s.len() ==> !is_whitespace(#[trigger] s[i])
}

/// A field as it can stand in a line: at least one character, none of them
/// whitespace.
pub open spec fn is_field(s: Seq<char>) -> bool {
    s.len() > 0 && has_no_whitespace(s)
}

/// The whitespace-separated fields of `s`, in order.
///
/// Read from the left: a whitespace character contributes nothing, a character
/// that follows a non-whitespace character extends the last field, and any
/// other character begins a new field.
pub open spec fn fields(s: Seq<char>) -> Seq<Seq<char>>
    decreases s.len(),
{
    if s.len() == 0 {
        Seq::empty()
    } else {
        let before = fields(s.drop_last());
        let c = s.last();
        if is_whitespace(c) {
            before
        } else if s.len() >= 2 && !is_whitespace(s[s.len() - 2]) {
            before.drop_last().push(before.last().push(c))
        } else {
            before.push(seq![c])
        }
    }
}

/// The pieces of `s` between line feeds. A text with `n` line feeds has
/// `n + 1` lines; the last one is empty when the text ends in a line feed.
pub open spec fn lines(s: Seq<char>) -> Seq<Seq<char>>
    decreases s.len(),
{
    if s.len() == 0 {
        seq![Seq::empty()]
    } else {
        let before = lines(s.drop_last());
        let c = s.last();
        if c == '\n' {
            before.push(Seq::empty())
        } else {
            before.drop_last().push(before.last().push(c))
        }
    }
}

/// The character sequences that a list of strings stands for.
pub open spec fn texts(v: Seq<String>) -> Seq<Seq<char>> {
    v.map_values(|s: String| s@)
}

/// Appends one character through `String::push`, which adds the character at
/// the end and leaves the rest as it was.
#[verifier::external_body]
pub(crate) fn push_char(s: &mut String, c: char)
    ensures
        final(s)@ == old(s)@.push(c),
{
    s.push(c);
}

/// Whether `c` is whitespace.
pub fn char_is_whitespace(c: char) -> (r: bool)
    ensures
        r == is_whitespace(c),
{
    let n: u32 = c as u32;
    (0x09 <= n && n <= 0x0D) || n == 0x20 || n == 0x85 || n == 0xA0 || n == 0x1680 || (0x2000 <= n
        && n <= 0x200A) || n == 0x2028 || n == 0x2029 || n == 0x202F || n == 0x205F || n == 0x3000
}

/// The characters of `s`, for access by position.
pub fn to_chars(s: &str) -> (r: Vec<char>)
    ensures
        r@ == s@,
{
    let mut out: Vec<char> = Vec::new();
    for c in it: s.chars()
        invariant
            it.seq() == s@,
            out@ == s@.take(it.index() as int),
    {
        out.push(c);
    }
    out
}

/// The string made of the characters `from..to` of `v`.
pub fn from_chars(v: &Vec<char>, from: usize, to: usize) -> (r: String)
    requires
        from <= to <= v.len(),
    ensures
        r@ == v@.subrange(from as int, to as int),
{
    let mut out = String::new();
    let mut i: usize = from;
    while i < to
        invariant
            from <= i <= to <= v.len(),
            out@ == v@.subrange(from as int, i as int),
        decreases to - i,
    {
        push_char(&mut out, v[i]);
        i = i + 1;
    }
    out
}

/// Whether two strings hold the same characters.
pub fn str_eq(a: &str, b: &str) -> (r: bool)
    ensures
        r == (a@ == b@),
{
    let x = to_chars(a);
    let y = to_chars(b);
    if x.len() != y.len() {
        return false;
    }
    let mut i: usize = 0;
    while i < x.len()
        invariant
            i <= x.len(),
            x.len() == y.len(),
            x@ == a@,
            y@ == b@,
            x@.take(i as int) == y@.take(i as int),
        decreases x.len() - i,
    {
        if x[i] != y[i] {
            return false;
        }
        assert(x@.take(i + 1) == x@.take(i as int).push(x@[i as int]));
        assert(y@.take(i + 1) == y@.take(i as int).push(y@[i as int]));
        i = i + 1;
    }
    assert(x@ == x@.take(i as int));
    assert(y@ == y@.take(i as int));
    true
}

/// Skipping whitespace cuts `s` at its first character that is not
/// whitespace.
pub proof fn lemma_skip_whitespace(s: Seq<char>, start: int)
    requires
        0 <= start <= s.len(),
        forall|i: int| 0 <= i < start ==> is_whitespace(#[trigger] s[i]),
        start < s.len() ==> !is_whitespace(s[start]),
    ensures
        skip_whitespace(s) == s.skip(start),
    decreases start,
{
    if start == 0 {
        assert(s.skip(0) == s);
    } else {
        let rest = s.drop_first();
        assert forall|i: int| 0 <= i < start - 1 implies is_whitespace(#[trigger] rest[i]) by {
            assert(rest[i] == s[i + 1]);
        }
        lemma_skip_whitespace(rest, start - 1);
        assert(rest.skip(start - 1) == s.skip(start));
    }
}

/// Trimming the end cuts `s` behind its last character that is not
/// whitespace.
pub proof fn lemma_trim_end(s: Seq<char>, end: int)
    requires
        0 <= end <= s.len(),
        forall|i: int| end <= i < s.len() ==> is_whitespace(#[trigger] s[i]),
        end > 0 ==> !is_whitespace(s[end - 1]),
    ensures
        trim_end(s) == s.take(end),
    decreases s.len() - end,
{
    if end == s.len() {
        assert(s.take(end) == s);
    } else {
        let rest = s.drop_last();
        lemma_trim_end(rest, end);
        assert(rest.take(end) == s.take(end));
    }
}

/// A text has at least one line.
pub proof fn lemma_lines_len(s: Seq<char>)
    ensures
        lines(s).len() >= 1,
    decreases s.len(),
{
    if s.len() > 0 {
        lemma_lines_len(s.drop_last());
    }
}

/// Text without line feeds, put behind `s`, extends the last line of `s`.
pub proof fn lemma_lines_append(s: Seq<char>, t: Seq<char>)
    requires
        forall|i: int| 0 <= i < t.len() ==> #[trigger] t[i] != '\n',
    ensures
        lines(s + t) == lines(s).drop_last().push(lines(s).last() + t),
    decreases t.len(),
{
    lemma_lines_len(s);
    let l = lines(s);
    if t.len() == 0 {
        assert(s + t == s);
        assert(l.last() + t == l.last());
        assert(l.drop_last().push(l.last()) == l);
    } else {
        let head = t.drop_last();
        lemma_lines_append(s, head);
        assert((s + t).drop_last() == s + head);
        assert((s + t).last() == t.last());
        let before = lines(s + head);
        assert(before.drop_last() == l.drop_last());
        assert(before.last().push(t.last()) == l.last() + t);
    }
}

/// A line feed closes the last line and opens an empty one.
pub proof fn lemma_lines_line_feed(s: Seq<char>)
    ensures
        lines(s.push('\n')) == lines(s).push(Seq::<char>::empty()),
{
    assert(s.push('\n').drop_last() == s);
}

/// Every field is one: it has a character, and none of them is whitespace.
/// A text that ends in a character that is not whitespace has a field.
pub proof fn lemma_fields_are_fields(s: Seq<char>)
    ensures
        forall|i: int| 0 <= i < fields(s).len() ==> is_field(#[trigger] fields(s)[i]),
        s.len() > 0 && !is_whitespace(s.last()) ==> fields(s).len() > 0,
    decreases s.len(),
{
    if s.len() > 0 {
        let before = fields(s.drop_last());
        let c = s.last();
        lemma_fields_are_fields(s.drop_last());
        if is_whitespace(c) {
        } else if s.len() >= 2 && !is_whitespace(s[s.len() - 2]) {
            assert(s.drop_last().last() == s[s.len() - 2]);
            let grown = before.last().push(c);
            assert(is_field(before.last()));
            assert forall|i: int| 0 <= i < grown.len() implies !is_whitespace(
                #[trigger] grown[i],
            ) by {
                if i < before.last().len() {
                    assert(grown[i] == before.last()[i]);
                }
            }
            assert forall|i: int| 0 <= i < fields(s).len() implies is_field(
                #[trigger] fields(s)[i],
            ) by {
                if i < before.len() - 1 {
                    assert(fields(s)[i] == before[i]);
                }
            }
        } else {
            assert(is_field(seq![c]));
            assert forall|i: int| 0 <= i < fields(s).len() implies is_field(
                #[trigger] fields(s)[i],
            ) by {
                if i < before.len() {
                    assert(fields(s)[i] == before[i]);
                }
            }
        }
    }
}

/// Whitespace at the end adds no field.
pub proof fn lemma_fields_append_whitespace(s: Seq<char>, c: char)
    requires
        is_whitespace(c),
    ensures
        fields(s.push(c)) == fields(s),
{
    assert(s.push(c).drop_last() == s);
}

/// A field put behind a text that is empty or ends in whitespace is one more
/// field.
pub proof fn lemma_fields_append_field(s: Seq<char>, w: Seq<char>)
    requires
        is_field(w),
        s.len() == 0 || is_whitespace(s.last()),
    ensures
        fields(s + w) == fields(s).push(w),
    decreases w.len(),
{
    let c = w.last();
    let head = w.drop_last();
    assert((s + w).drop_last() == s + head);
    assert((s + w).last() == c);
    assert(!is_whitespace(c));
    if head.len() == 0 {
        assert(s + head == s);
        assert(w == seq![c]);
        if s.len() > 0 {
            assert((s + w)[(s + w).len() - 2] == s.last());
        }
    } else {
        assert(is_field(head)) by {
            assert forall|i: int| 0 <= i < head.len() implies !is_whitespace(
                #[trigger] head[i],
            ) by {
                assert(head[i] == w[i]);
            }
        }
        lemma_fields_append_field(s, head);
        assert((s + w)[(s + w).len() - 2] == head.last());
        assert(head.last() == w[w.len() - 2]);
        let before = fields(s + head);
        assert(before.drop_last() == fields(s));
        assert(before.last().push(c) == w);
    }
}

/// Two fields with a blank between them are read as those two fields.
pub proof fn lemma_fields_of_pair(a: Seq<char>, b: Seq<char>)
    requires
        is_field(a),
        is_field(b),
    ensures
        fields(a + seq![' '] + b) == seq![a, b],
{
    let none = Seq::<char>::empty();
    lemma_fields_append_field(none, a);
    assert(none + a == a);
    assert(fields(none) == Seq::<Seq<char>>::empty());
    assert(is_whitespace(' '));
    lemma_fields_append_whitespace(a, ' ');
    assert(a + seq![' '] == a.push(' '));
    lemma_fields_append_field(a.push(' '), b);
    assert(Seq::<Seq<char>>::empty().push(a).push(b) == seq![a, b]);
}

/// `s` without leading and trailing whitespace, as a new string.
pub fn trim(s: &str) -> (r: String)
    ensures
        r@ == trimmed(s@),
{
    let chars = to_chars(s);
    let n: usize = chars.len();
    let mut start: usize = 0;
    while start < n && char_is_whitespace(chars[start])
        invariant
            start <= n == chars.len(),
            forall|i: int| 0 <= i < start ==> is_whitespace(#[trigger] chars@[i]),
        decreases n - start,
    {
        start = start + 1;
    }
    let mut end: usize = n;
    while end > start && char_is_whitespace(chars[end - 1])
        invariant
            start <= end <= n == chars.len(),
            forall|i: int| end <= i < n ==> is_whitespace(#[trigger] chars@[i]),
        decreases end,
    {
        end = end - 1;
    }
    proof {
        let rest = chars@.skip(start as int);
        lemma_skip_whitespace(chars@, start as int);
        assert forall|i: int| end - start <= i < rest.len() implies is_whitespace(
            #[trigger] rest[i],
        ) by {
            assert(rest[i] == chars@[i + start]);
        }
        lemma_trim_end(rest, end - start);
        assert(rest.take(end - start) == chars@.subrange(start as int, end as int));
    }
    from_chars(&chars, start, end)
}

/// The whitespace-separated fields of `s`.
pub fn split_fields(s: &str) -> (r: Vec<String>)
    ensures
        texts(r@) == fields(s@),
{
    let chars = to_chars(s);
    let mut done: Vec<String> = Vec::new();
    let mut word = String::new();
    let mut in_word = false;
    let mut i: usize = 0;
    while i < chars.len()
        invariant
            i <= chars.len(),
            in_word ==> i > 0 && !is_whitespace(chars@[i - 1]) && fields(chars@.take(i as int))
                == texts(done@).push(word@),
            !in_word ==> (i == 0 || is_whitespace(chars@[i - 1])) && fields(chars@.take(i as int))
                == texts(done@) && word@.len() == 0,
        decreases chars.len() - i,
    {
        let c = chars[i];
        proof {
            let next = chars@.take(i + 1);
            assert(next.drop_last() == chars@.take(i as int));
            assert(next.last() == c);
            if i > 0 {
                assert(next[next.len() - 2] == chars@[i - 1]);
            }
        }
        if char_is_whitespace(c) {
            if in_word {
                let ghost before = texts(done@);
                done.push(word);
                assert(texts(done@) == before.push(word@));
                word = String::new();
                in_word = false;
            }
        } else {
            let ghost old_word = word@;
            push_char(&mut word, c);
            proof {
                if in_word {
                    let f = texts(done@).push(old_word);
                    assert(f.drop_last() == texts(done@));
                    assert(f.last() == old_word);
                } else {
                    assert(word@ == seq![c]);
                }
            }
            in_word = true;
        }
        i = i + 1;
    }
    assert(chars@.take(i as int) == chars@);
    if in_word {
        let ghost before = texts(done@);
        done.push(word);
        assert(texts(done@) == before.push(word@));
    }
    done
}

/// The lines of `s`: the pieces between its line feeds.
pub fn split_lines(s: &str) -> (r: Vec<String>)
    ensures
        texts(r@) == lines(s@),
{
    let chars = to_chars(s);
    let mut done: Vec<String> = Vec::new();
    let mut line = String::new();
    let mut i: usize = 0;
    while i < chars.len()
        invariant
            i <= chars.len(),
            lines(chars@.take(i as int)) == texts(done@).push(line@),
        decreases chars.len() - i,
    {
        let c = chars[i];
        proof {
            let next = chars@.take(i + 1);
            assert(next.drop_last() == chars@.take(i as int));
            assert(next.last() == c);
        }
        let ghost before = texts(done@);
        let ghost old_line = line@;
        if c == '\n' {
            done.push(line);
            assert(texts(done@) == before.push(old_line));
            line = String::new();
        } else {
            push_char(&mut line, c);
            proof {
                let f = before.push(old_line);
                assert(f.drop_last() == before);
                assert(f.last() == old_line);
            }
        }
        i = i + 1;
    }
    assert(chars@.take(i as int) == chars@);
    let ghost before = texts(done@);
    done.push(line);
    assert(texts(done@) == before.push(line@));
    done
}

} // verus!

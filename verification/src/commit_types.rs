//! The types of commit that are counted.
//!
//! A type is written as a token. Six tokens and their short forms name the
//! standard types; any other token is a type of its own. Whatever the token's
//! case and the whitespace around it, the type is the same, and it is shown by
//! one upper-case code.

use vstd::prelude::*;
use vstd::string::*;
use vstd::utf8::is_ascii_chars;
use crate::casing::{ascii_upper, lemma_uppercase_ascii, to_uppercase, uppercase};
use crate::text::{
    is_whitespace, lemma_skip_whitespace, lemma_trim_end, skip_whitespace, str_eq, trim,
    trim_end, trimmed,
};

verus! {

/// Types of commits.
///
/// Two values are equal, and hash alike, exactly when they are shown by the
/// same code: `Custom("wip")` equals `Custom("WIP")`, and `Custom("FEAT")`
/// equals `Feature`.
#[derive(Debug, Eq, Clone)]
pub enum CommitType {
    Feature,
    Fix,
    Documentation,
    Refactor,
    Test,
    Performance,
    Custom(String),
}

/// A commit type as a value of specifications.
pub enum CommitKind {
    Feature,
    Fix,
    Documentation,
    Refactor,
    Test,
    Performance,
    Custom(Seq<char>),
}

impl View for CommitType {
    type V = CommitKind;

    /// The type without its representation: a custom type by the characters
    /// of its token.
    open spec fn view(&self) -> CommitKind {
        match self {
            CommitType::Feature => CommitKind::Feature,
            CommitType::Fix => CommitKind::Fix,
            CommitType::Documentation => CommitKind::Documentation,
            CommitType::Refactor => CommitKind::Refactor,
            CommitType::Test => CommitKind::Test,
            CommitType::Performance => CommitKind::Performance,
            CommitType::Custom(s) => CommitKind::Custom(s@),
        }
    }
}

impl PartialEq for CommitType {
    /// Whether the two types are shown by the same code.
    fn eq(&self, other: &CommitType) -> (r: bool) {
        let mine = self.to_display_string();
        let theirs = other.to_display_string();
        mine == theirs
    }
}

impl vstd::std_specs::cmp::PartialEqSpecImpl for CommitType {
    open spec fn obeys_eq_spec() -> bool {
        true
    }

    open spec fn eq_spec(&self, other: &CommitType) -> bool {
        self@.code() == other@.code()
    }
}

impl core::hash::Hash for CommitType {
    /// Feeds the code of the type to the hasher, so that types that are
    /// equal hash alike.
    fn hash<H: core::hash::Hasher>(&self, state: &mut H) {
        let code = self.to_display_string();
        hash_text(code.as_str(), state);
    }
}

/// Feeds `text` to the hasher through `<str as Hash>::hash`.
#[verifier::external_body]
fn hash_text<H: core::hash::Hasher>(text: &str, state: &mut H) {
    core::hash::Hash::hash(text, state);
}

impl CommitKind {
    /// The code by which the type is shown and under which it is counted:
    /// four letters for a standard type, the token in upper case for any
    /// other.
    pub open spec fn code(self) -> Seq<char> {
        match self {
            CommitKind::Feature => "FEAT"@,
            CommitKind::Fix => "FIXE"@,
            CommitKind::Documentation => "DOCS"@,
            CommitKind::Refactor => "REFA"@,
            CommitKind::Test => "TEST"@,
            CommitKind::Performance => "PERF"@,
            CommitKind::Custom(s) => uppercase(s),
        }
    }
}

/// The token that stands for a written type: the text without the whitespace
/// around it, in upper case.
pub open spec fn canonical(s: Seq<char>) -> Seq<char> {
    uppercase(trimmed(s))
}

/// The type that a token in canonical form names.
pub open spec fn classify(token: Seq<char>) -> CommitKind {
    if token == "FEAT"@ || token == "FE"@ {
        CommitKind::Feature
    } else if token == "FIXE"@ || token == "FI"@ {
        CommitKind::Fix
    } else if token == "DOCS"@ || token == "D"@ {
        CommitKind::Documentation
    } else if token == "REFA"@ || token == "R"@ {
        CommitKind::Refactor
    } else if token == "TEST"@ || token == "T"@ {
        CommitKind::Test
    } else if token == "PERF"@ || token == "P"@ {
        CommitKind::Performance
    } else {
        CommitKind::Custom(token)
    }
}

/// The type that a written type names.
pub open spec fn parsed(s: Seq<char>) -> CommitKind {
    classify(canonical(s))
}

/// The six standard types, in the order in which they are shown.
pub open spec fn standard_kinds() -> Seq<CommitKind> {
    seq![
        CommitKind::Feature,
        CommitKind::Fix,
        CommitKind::Documentation,
        CommitKind::Refactor,
        CommitKind::Test,
        CommitKind::Performance,
    ]
}

/// What a list of types stands for.
pub open spec fn kinds(v: Seq<CommitType>) -> Seq<CommitKind> {
    v.map_values(|t: CommitType| t@)
}

impl CommitType {
    /// The type named by a token that is already trimmed and in upper case.
    pub fn from_canonical(token: &str) -> (r: CommitType)
        ensures
            r@ == classify(token@),
    {
        if str_eq(token, "FEAT") || str_eq(token, "FE") {
            CommitType::Feature
        } else if str_eq(token, "FIXE") || str_eq(token, "FI") {
            CommitType::Fix
        } else if str_eq(token, "DOCS") || str_eq(token, "D") {
            CommitType::Documentation
        } else if str_eq(token, "REFA") || str_eq(token, "R") {
            CommitType::Refactor
        } else if str_eq(token, "TEST") || str_eq(token, "T") {
            CommitType::Test
        } else if str_eq(token, "PERF") || str_eq(token, "P") {
            CommitType::Performance
        } else {
            CommitType::Custom(String::from_str(token))
        }
    }

    /// The type that `s` names. Case and surrounding whitespace make no
    /// difference; a token that names no standard type is a type of its own.
    pub fn from_str(s: &str) -> (r: CommitType)
        ensures
            r@ == parsed(s@),
    {
        let bare = trim(s);
        let token = to_uppercase(bare.as_str());
        CommitType::from_canonical(token.as_str())
    }

    /// The six standard types, in the order in which they are shown.
    pub fn standard_types() -> (r: Vec<CommitType>)
        ensures
            kinds(r@) == standard_kinds(),
    {
        let mut v: Vec<CommitType> = Vec::new();
        v.push(CommitType::Feature);
        v.push(CommitType::Fix);
        v.push(CommitType::Documentation);
        v.push(CommitType::Refactor);
        v.push(CommitType::Test);
        v.push(CommitType::Performance);
        assert(kinds(v@) == standard_kinds());
        v
    }

    /// The code by which the type is shown and under which it is counted.
    pub fn to_display_string(&self) -> (r: String)
        ensures
            r@ == self@.code(),
    {
        match self {
            CommitType::Feature => String::from_str("FEAT"),
            CommitType::Fix => String::from_str("FIXE"),
            CommitType::Documentation => String::from_str("DOCS"),
            CommitType::Refactor => String::from_str("REFA"),
            CommitType::Test => String::from_str("TEST"),
            CommitType::Performance => String::from_str("PERF"),
            CommitType::Custom(s) => to_uppercase(s.as_str()),
        }
    }
}

/// Which written types name which type: a standard type is named by the
/// tokens whose canonical form is its code or its short form, and any other
/// written type names the type of its own canonical token.
pub proof fn lemma_parsed_by_token(s: Seq<char>)
    ensures
        parsed(s) == CommitKind::Feature <==> canonical(s) == "FEAT"@ || canonical(s) == "FE"@,
        parsed(s) == CommitKind::Fix <==> canonical(s) == "FIXE"@ || canonical(s) == "FI"@,
        parsed(s) == CommitKind::Documentation <==> canonical(s) == "DOCS"@ || canonical(s)
            == "D"@,
        parsed(s) == CommitKind::Refactor <==> canonical(s) == "REFA"@ || canonical(s) == "R"@,
        parsed(s) == CommitKind::Test <==> canonical(s) == "TEST"@ || canonical(s) == "T"@,
        parsed(s) == CommitKind::Performance <==> canonical(s) == "PERF"@ || canonical(s)
            == "P"@,
        parsed(s) is Custom <==> parsed(s) == CommitKind::Custom(canonical(s)),
{
    reveal_strlit("FEAT");
    reveal_strlit("FIXE");
    reveal_strlit("DOCS");
    reveal_strlit("REFA");
    reveal_strlit("TEST");
    reveal_strlit("PERF");
    reveal_strlit("FE");
    reveal_strlit("FI");
    reveal_strlit("D");
    reveal_strlit("R");
    reveal_strlit("T");
    reveal_strlit("P");
    assert("FEAT"@[0] == 'F' && "FEAT"@[1] == 'E');
    assert("FIXE"@[0] == 'F' && "FIXE"@[1] == 'I');
    assert("DOCS"@[0] == 'D');
    assert("REFA"@[0] == 'R');
    assert("TEST"@[0] == 'T');
    assert("PERF"@[0] == 'P');
    assert("FE"@[1] == 'E');
    assert("FI"@[1] == 'I');
    assert("D"@[0] == 'D');
    assert("R"@[0] == 'R');
    assert("T"@[0] == 'T');
    assert("P"@[0] == 'P');
}

/// What trimming leaves neither begins nor ends with whitespace.
pub proof fn lemma_trimmed_ends(s: Seq<char>)
    ensures
        trimmed(s).len() > 0 ==> !is_whitespace(trimmed(s)[0]) && !is_whitespace(
            trimmed(s).last(),
        ),
{
    lemma_skip_whitespace_start(s);
    lemma_trim_end_keeps_start(skip_whitespace(s));
}

/// What is left after skipping whitespace does not begin with whitespace.
pub proof fn lemma_skip_whitespace_start(s: Seq<char>)
    ensures
        skip_whitespace(s).len() > 0 ==> !is_whitespace(skip_whitespace(s)[0]),
    decreases s.len(),
{
    if s.len() > 0 && is_whitespace(s[0]) {
        lemma_skip_whitespace_start(s.drop_first());
    }
}

/// Trimming the end leaves a prefix that does not end with whitespace.
pub proof fn lemma_trim_end_keeps_start(s: Seq<char>)
    ensures
        trim_end(s).len() <= s.len(),
        trim_end(s) == s.take(trim_end(s).len() as int),
        trim_end(s).len() > 0 ==> !is_whitespace(trim_end(s).last()),
    decreases s.len(),
{
    if s.len() > 0 && is_whitespace(s.last()) {
        lemma_trim_end_keeps_start(s.drop_last());
        assert(s.drop_last().take(trim_end(s).len() as int) == s.take(trim_end(s).len() as int));
    } else {
        assert(s.take(s.len() as int) == s);
    }
}

/// Text that neither begins nor ends with whitespace is left as it is by
/// trimming.
pub proof fn lemma_trimmed_fixed(s: Seq<char>)
    requires
        s.len() > 0 ==> !is_whitespace(s[0]) && !is_whitespace(s.last()),
    ensures
        trimmed(s) == s,
{
    lemma_skip_whitespace(s, 0);
    assert(s.skip(0) == s);
    lemma_trim_end(s, s.len() as int);
    assert(s.take(s.len() as int) == s);
}

/// A four-letter code of a standard type is its own canonical form.
pub proof fn lemma_codes_are_canonical()
    ensures
        canonical("FEAT"@) == "FEAT"@,
        canonical("FIXE"@) == "FIXE"@,
        canonical("DOCS"@) == "DOCS"@,
        canonical("REFA"@) == "REFA"@,
        canonical("TEST"@) == "TEST"@,
        canonical("PERF"@) == "PERF"@,
{
    reveal_strlit("FEAT");
    reveal_strlit("FIXE");
    reveal_strlit("DOCS");
    reveal_strlit("REFA");
    reveal_strlit("TEST");
    reveal_strlit("PERF");
    lemma_code_is_canonical("FEAT"@);
    lemma_code_is_canonical("FIXE"@);
    lemma_code_is_canonical("DOCS"@);
    lemma_code_is_canonical("REFA"@);
    lemma_code_is_canonical("TEST"@);
    lemma_code_is_canonical("PERF"@);
}

/// Text of upper-case ASCII letters is its own canonical form.
pub proof fn lemma_code_is_canonical(s: Seq<char>)
    requires
        forall|i: int| 0 <= i < s.len() ==> 'A' <= #[trigger] s[i] <= 'Z',
    ensures
        canonical(s) == s,
{
    if s.len() > 0 {
        assert('A' <= s[0] <= 'Z');
        assert('A' <= s[s.len() - 1] <= 'Z');
    }
    lemma_trimmed_fixed(s);
    assert(is_ascii_chars(s)) by {
        assert forall|i: int| 0 <= i < s.len() implies '\0' <= #[trigger] s[i] <= '\u{7f}' by {
            assert('A' <= s[i] <= 'Z');
        }
    }
    assert(uppercase(s) == s) by {
        assert forall|i: int| 0 <= i < s.len() implies ascii_upper(#[trigger] s[i]) == s[i] by {
            assert('A' <= s[i] <= 'Z');
        }
    }
}

/// The type that a written type names, shown and read again, is the same
/// type: always where it is a standard type, and for a type of its own
/// provided its canonical token stays what it is when it is put into upper
/// case and made canonical once more.
pub proof fn lemma_display_reparses_when_settled(s: Seq<char>)
    requires
        parsed(s) is Custom ==> canonical(uppercase(canonical(s))) == canonical(s),
    ensures
        parsed(parsed(s).code()) == parsed(s),
{
    lemma_codes_are_canonical();
    reveal_strlit("FEAT");
    reveal_strlit("FIXE");
    reveal_strlit("DOCS");
    reveal_strlit("REFA");
    reveal_strlit("TEST");
    reveal_strlit("PERF");
    reveal_strlit("FE");
    reveal_strlit("FI");
    reveal_strlit("D");
    reveal_strlit("R");
    reveal_strlit("T");
    reveal_strlit("P");
}

/// Two written types name the same type exactly when they are shown by the
/// same code, provided that putting the canonical token of a type of its own
/// into upper case once more changes nothing.
pub proof fn lemma_same_code_same_type(a: Seq<char>, b: Seq<char>)
    requires
        parsed(a) is Custom ==> uppercase(canonical(a)) == canonical(a),
        parsed(b) is Custom ==> uppercase(canonical(b)) == canonical(b),
    ensures
        parsed(a) == parsed(b) <==> parsed(a).code() == parsed(b).code(),
{
    lemma_parsed_by_token(a);
    lemma_parsed_by_token(b);
    reveal_strlit("FEAT");
    reveal_strlit("FIXE");
    reveal_strlit("DOCS");
    reveal_strlit("REFA");
    reveal_strlit("TEST");
    reveal_strlit("PERF");
    assert("FEAT"@[0] == 'F' && "FEAT"@[1] == 'E');
    assert("FIXE"@[0] == 'F' && "FIXE"@[1] == 'I');
    assert("DOCS"@[0] == 'D');
    assert("REFA"@[0] == 'R');
    assert("TEST"@[0] == 'T');
    assert("PERF"@[0] == 'P');
}

/// A written type whose trimmed text is ASCII has a canonical token that
/// stays what it is.
pub proof fn lemma_ascii_is_settled(s: Seq<char>)
    requires
        is_ascii_chars(trimmed(s)),
    ensures
        canonical(uppercase(canonical(s))) == canonical(s),
        is_ascii_chars(canonical(s)),
{
    let bare = trimmed(s);
    let token = canonical(s);
    lemma_uppercase_ascii(bare);
    lemma_trimmed_ends(s);
    if token.len() > 0 {
        assert(token[0] == ascii_upper(bare[0]));
        assert(token.last() == ascii_upper(bare.last()));
    }
    lemma_trimmed_fixed(token);
}

/// The type that a written type names, shown and read again, is the same
/// type, for every written type whose trimmed text is ASCII.
pub proof fn lemma_display_reparses_ascii(s: Seq<char>)
    requires
        is_ascii_chars(trimmed(s)),
    ensures
        parsed(parsed(s).code()) == parsed(s),
{
    lemma_ascii_is_settled(s);
    lemma_display_reparses_when_settled(s);
}

} // verus!

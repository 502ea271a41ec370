//! Upper case.
//!
//! Text made of ASCII characters is put into upper case here, letter by
//! letter. Any other text is handed to the standard library, whose answer is
//! known to the proofs only by name.

use vstd::prelude::*;
use vstd::utf8::is_ascii_chars;
use crate::text::{push_char, to_chars};

verus! {

/// The upper case that `str::to_uppercase` gives for `s`.
pub uninterp spec fn unicode_uppercase(s: Seq<char>) -> Seq<char>;

/// `c` in upper case if it is one of the letters `a` to `z`, and `c` itself
/// otherwise.
pub open spec fn ascii_upper(c: char) -> char {
    if 'a' <= c && c <= 'z' {
        ((c as u32 - 0x20) as u8) as char
    } else {
        c
    }
}

/// `s` in upper case.
pub open spec fn uppercase(s: Seq<char>) -> Seq<char> {
    if is_ascii_chars(s) {
        s.map_values(|c: char| ascii_upper(c))
    } else {
        unicode_uppercase(s)
    }
}

/// Calls `str::to_uppercase`. Its result depends on the characters of `s`
/// alone, and the contract says no more than that.
#[verifier::external_body]
fn std_to_uppercase(s: &str) -> (r: String)
    ensures
        r@ == unicode_uppercase(s@),
{
    s.to_uppercase()
}

/// `c` in upper case if it is one of the letters `a` to `z`.
pub fn char_to_ascii_upper(c: char) -> (r: char)
    ensures
        r == ascii_upper(c),
{
    if 'a' <= c && c <= 'z' {
        ((c as u32 - 0x20) as u8) as char
    } else {
        c
    }
}

/// `s` in upper case, as a new string.
pub fn to_uppercase(s: &str) -> (r: String)
    ensures
        r@ == uppercase(s@),
{
    if s.is_ascii() {
        let chars = to_chars(s);
        let mut out = String::new();
        let mut i: usize = 0;
        while i < chars.len()
            invariant
                i <= chars.len(),
                out@ == chars@.take(i as int).map_values(|c: char| ascii_upper(c)),
            decreases chars.len() - i,
        {
            push_char(&mut out, char_to_ascii_upper(chars[i]));
            assert(chars@.take(i + 1).map_values(|c: char| ascii_upper(c)) == chars@.take(
                i as int,
            ).map_values(|c: char| ascii_upper(c)).push(ascii_upper(chars@[i as int])));
            i = i + 1;
        }
        assert(chars@.take(i as int) == chars@);
        out
    } else {
        std_to_uppercase(s)
    }
}

/// Upper case leaves ASCII text ASCII, and putting it into upper case a second
/// time changes nothing.
pub proof fn lemma_uppercase_ascii(s: Seq<char>)
    requires
        is_ascii_chars(s),
    ensures
        is_ascii_chars(uppercase(s)),
        uppercase(s).len() == s.len(),
        uppercase(uppercase(s)) == uppercase(s),
        forall|i: int| 0 <= i < s.len() ==> #[trigger] uppercase(s)[i] == ascii_upper(s[i]),
{
    let u = uppercase(s);
    assert(is_ascii_chars(u));
    assert(uppercase(u) == u);
}

} // verus!

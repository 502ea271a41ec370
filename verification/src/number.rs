//! Counts as decimal text: how a count is written, and which texts are read
//! back as a count.

use vstd::prelude::*;
use crate::text::{is_field, is_whitespace, push_char, to_chars};

verus! {

/// Why a text is not a count.
#[derive(Debug, Clone, Copy, PartialEq, Eq, Structural)]
pub enum NumberError {
    /// The text has no characters.
    Empty,
    /// A character that is not a decimal digit stands where one is expected.
    InvalidDigit,
    /// The digits stand for a number above `u32::MAX`.
    Overflow,
}

/// Whether `c` is one of the digits `0` to `9`.
pub open spec fn is_digit(c: char) -> bool {
    '0' <= c && c <= '9'
}

/// The number that the digit `c` stands for.
pub open spec fn digit_value(c: char) -> nat
    recommends
        is_digit(c),
{
    (c as u32 - 0x30) as nat
}

/// The digit that stands for `d`.
pub open spec fn digit_char(d: nat) -> char
    recommends
        d < 10,
{
    ((d + 0x30) as u8) as char
}

/// The number that a sequence of digits stands for, read as decimal.
pub open spec fn digits_value(s: Seq<char>) -> nat
    decreases s.len(),
{
    if s.len() == 0 {
        0
    } else {
        digits_value(s.drop_last()) * 10 + digit_value(s.last())
    }
}

/// How many digits `s` begins with.
pub open spec fn leading_digits(s: Seq<char>) -> nat
    decreases s.len(),
{
    if s.len() > 0 && is_digit(s[0]) {
        1 + leading_digits(s.drop_first())
    } else {
        0
    }
}

/// `n` in decimal, without leading zeros.
pub open spec fn decimal(n: nat) -> Seq<char>
    decreases n,
{
    if n < 10 {
        seq![digit_char(n)]
    } else {
        decimal(n / 10).push(digit_char(n % 10))
    }
}

/// The part of `s` that has to consist of digits: `s` itself, or what follows
/// a plus sign that does not stand alone.
pub open spec fn unsigned_part(s: Seq<char>) -> Seq<char> {
    if s.len() > 1 && s[0] == '+' {
        s.drop_first()
    } else {
        s
    }
}

/// The count that `s` stands for: an optional plus sign, then decimal digits
/// only, with a value of at most `u32::MAX`.
///
/// The text is read from the left and the first obstacle decides the error:
/// digits that already exceed `u32::MAX` give `Overflow` whatever follows
/// them, and a character that is no digit gives `InvalidDigit` otherwise.
pub open spec fn parse_u32(s: Seq<char>) -> Result<u32, NumberError> {
    if s.len() == 0 {
        Err(NumberError::Empty)
    } else {
        let d = unsigned_part(s);
        let k = leading_digits(d) as int;
        if digits_value(d.take(k)) > u32::MAX {
            Err(NumberError::Overflow)
        } else if k < d.len() {
            Err(NumberError::InvalidDigit)
        } else {
            Ok(digits_value(d) as u32)
        }
    }
}

impl NumberError {
    /// The sentence that describes the error.
    pub open spec fn text(self) -> Seq<char> {
        match self {
            NumberError::Empty => "cannot parse integer from empty string"@,
            NumberError::InvalidDigit => "invalid digit found in string"@,
            NumberError::Overflow => "number too large to fit in target type"@,
        }
    }

    /// The sentence that describes the error.
    pub fn message(&self) -> (r: &'static str)
        ensures
            r@ == self.text(),
    {
        match self {
            NumberError::Empty => "cannot parse integer from empty string",
            NumberError::InvalidDigit => "invalid digit found in string",
            NumberError::Overflow => "number too large to fit in target type",
        }
    }
}

/// A text whose first `k` characters are digits begins with exactly `k`
/// digits if the next character, where there is one, is no digit.
pub proof fn lemma_leading_digits(s: Seq<char>, k: int)
    requires
        0 <= k <= s.len(),
        forall|i: int| 0 <= i < k ==> is_digit(#[trigger] s[i]),
    ensures
        leading_digits(s) >= k,
        (k == s.len() || !is_digit(s[k])) ==> leading_digits(s) == k,
    decreases k,
{
    if k > 0 {
        let rest = s.drop_first();
        assert forall|i: int| 0 <= i < k - 1 implies is_digit(#[trigger] rest[i]) by {
            assert(rest[i] == s[i + 1]);
        }
        lemma_leading_digits(rest, k - 1);
    }
}

/// The number of leading digits never exceeds the length.
pub proof fn lemma_leading_digits_bound(s: Seq<char>)
    ensures
        leading_digits(s) <= s.len(),
        forall|i: int| 0 <= i < leading_digits(s) ==> is_digit(#[trigger] s[i]),
    decreases s.len(),
{
    if s.len() > 0 && is_digit(s[0]) {
        let rest = s.drop_first();
        lemma_leading_digits_bound(rest);
        assert forall|i: int| 0 <= i < leading_digits(s) implies is_digit(#[trigger] s[i]) by {
            if i > 0 {
                assert(s[i] == rest[i - 1]);
            }
        }
    }
}

/// A longer prefix of a text stands for a number that is at least as large.
pub proof fn lemma_digits_value_grows(s: Seq<char>, j: int, k: int)
    requires
        0 <= j <= k <= s.len(),
    ensures
        digits_value(s.take(j)) <= digits_value(s.take(k)),
    decreases k - j,
{
    if j < k {
        lemma_digits_value_grows(s, j, k - 1);
        assert(s.take(k).drop_last() == s.take(k - 1));
        assert(digits_value(s.take(k)) >= digits_value(s.take(k - 1)) * 10);
    }
}

/// The decimal text of a number consists of digits and stands for that
/// number.
pub proof fn lemma_decimal_digits(n: nat)
    ensures
        decimal(n).len() >= 1,
        forall|i: int| 0 <= i < decimal(n).len() ==> is_digit(#[trigger] decimal(n)[i]),
        digits_value(decimal(n)) == n,
    decreases n,
{
    if n < 10 {
        let s = decimal(n);
        assert(s == seq![digit_char(n)]);
        assert(s.drop_last().len() == 0);
        assert(digits_value(s.drop_last()) == 0);
        assert(digit_value(digit_char(n)) == n);
    } else {
        lemma_decimal_digits(n / 10);
        let s = decimal(n);
        let d = digit_char(n % 10);
        assert(s.drop_last() == decimal(n / 10));
        assert(s.last() == d);
        assert(digit_value(d) == n % 10);
        assert(is_digit(d));
    }
}

/// What is written for a count is read back as that count.
pub proof fn lemma_parse_decimal(n: u32)
    ensures
        parse_u32(decimal(n as nat)) == Ok::<u32, NumberError>(n),
{
    let s = decimal(n as nat);
    lemma_decimal_digits(n as nat);
    assert(is_digit(s[0]));
    assert(unsigned_part(s) == s);
    lemma_leading_digits(s, s.len() as int);
    assert(s.take(s.len() as int) == s);
}

/// The decimal text of a number is a field: it is not empty and holds no
/// whitespace.
pub proof fn lemma_decimal_is_field(n: nat)
    ensures
        is_field(decimal(n)),
{
    lemma_decimal_digits(n);
    assert forall|i: int| 0 <= i < decimal(n).len() implies !is_whitespace(
        #[trigger] decimal(n)[i],
    ) by {
        assert(is_digit(decimal(n)[i]));
    }
}

/// Reads a count from its decimal text.
pub fn parse_count(s: &str) -> (r: Result<u32, NumberError>)
    ensures
        r == parse_u32(s@),
{
    let chars = to_chars(s);
    let n: usize = chars.len();
    if n == 0 {
        return Err(NumberError::Empty);
    }
    let start: usize = if n > 1 && chars[0] == '+' {
        1
    } else {
        0
    };
    let ghost d = unsigned_part(s@);
    assert(d == chars@.skip(start as int));
    let mut acc: u32 = 0;
    let mut i: usize = start;
    while i < n
        invariant
            start <= i <= n == chars.len(),
            s@.len() > 0,
            d == unsigned_part(s@),
            d == chars@.skip(start as int),
            forall|j: int| 0 <= j < i - start ==> is_digit(#[trigger] d[j]),
            acc == digits_value(d.take(i - start)),
        decreases n - i,
    {
        let c = chars[i];
        assert(d[i - start] == c);
        if !('0' <= c && c <= '9') {
            proof {
                lemma_leading_digits(d, i - start);
            }
            return Err(NumberError::InvalidDigit);
        }
        let digit: u32 = c as u32 - 0x30;
        let wide: u64 = acc as u64 * 10 + digit as u64;
        proof {
            assert(d.take(i - start + 1).drop_last() == d.take(i - start));
            assert(d.take(i - start + 1).last() == c);
            assert(wide == digits_value(d.take(i - start + 1)));
        }
        if wide > u32::MAX as u64 {
            proof {
                lemma_leading_digits(d, i - start + 1);
                lemma_leading_digits_bound(d);
                lemma_digits_value_grows(d, i - start + 1, leading_digits(d) as int);
            }
            return Err(NumberError::Overflow);
        }
        acc = wide as u32;
        i = i + 1;
    }
    proof {
        lemma_leading_digits(d, d.len() as int);
        assert(d.take(d.len() as int) == d);
    }
    Ok(acc)
}

/// Writes a count in decimal.
pub fn render_count(n: u32) -> (r: String)
    ensures
        r@ == decimal(n as nat),
    decreases n,
{
    if n < 10 {
        let mut out = String::new();
        push_char(&mut out, (n as u8 + 0x30) as char);
        assert(out@ == seq![digit_char(n as nat)]);
        out
    } else {
        let mut out = render_count(n / 10);
        push_char(&mut out, ((n % 10) as u8 + 0x30) as char);
        out
    }
}

} // verus!

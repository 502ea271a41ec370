//! The request for a commit as it is typed: `TYPE : message`.

use vstd::prelude::*;
use vstd::string::*;
use crate::commit_types::{parsed, CommitKind, CommitType};
use crate::error::CommitCounterError;
use crate::text::{from_chars, to_chars, trim, trimmed};

verus! {

/// The position of the first colon in `s`, or the length of `s` if it has
/// none.
pub open spec fn colon_index(s: Seq<char>) -> int
    decreases s.len(),
{
    if s.len() == 0 || s[0] == ':' {
        0
    } else {
        1 + colon_index(s.drop_first())
    }
}

/// Whether `s` has a colon.
pub open spec fn has_colon(s: Seq<char>) -> bool {
    colon_index(s) < s.len()
}

/// The type that a request names: what stands before its first colon.
pub open spec fn request_kind(s: Seq<char>) -> CommitKind {
    parsed(s.take(colon_index(s)))
}

/// The message of a request: what stands behind its first colon, without the
/// whitespace around it.
pub open spec fn request_message(s: Seq<char>) -> Seq<char> {
    trimmed(s.skip(colon_index(s) + 1))
}

/// The sentence of the error for a request without a colon.
pub open spec fn request_failure() -> Seq<char> {
    "Commit message must be in the format \"TYPE : message\""@
}

/// Where the first colon stands is where `colon_index` points.
pub proof fn lemma_colon_index(s: Seq<char>, k: int)
    requires
        0 <= k <= s.len(),
        forall|i: int| 0 <= i < k ==> #[trigger] s[i] != ':',
        k < s.len() ==> s[k] == ':',
    ensures
        colon_index(s) == k,
    decreases k,
{
    if k > 0 {
        let rest = s.drop_first();
        assert forall|i: int| 0 <= i < k - 1 implies #[trigger] rest[i] != ':' by {
            assert(rest[i] == s[i + 1]);
        }
        lemma_colon_index(rest, k - 1);
    }
}

/// Splits a request at its first colon into the type and the message.
///
/// Fails with a `ValidationError` exactly when the request has no colon.
pub fn parse_commit_request(input: &str) -> (r: Result<(CommitType, String), CommitCounterError>)
    ensures
        has_colon(input@) ==> (r matches Ok((commit_type, message)) && commit_type@
            == request_kind(input@) && message@ == request_message(input@)),
        !has_colon(input@) ==> (r matches Err(CommitCounterError::ValidationError(s)) && s@
            == request_failure()),
{
    let chars = to_chars(input);
    let n: usize = chars.len();
    let mut k: usize = 0;
    while k < n && chars[k] != ':'
        invariant
            k <= n == chars.len(),
            forall|i: int| 0 <= i < k ==> #[trigger] chars@[i] != ':',
        decreases n - k,
    {
        k = k + 1;
    }
    proof {
        lemma_colon_index(chars@, k as int);
    }
    if k == n {
        return Err(
            CommitCounterError::ValidationError(
                String::from_str("Commit message must be in the format \"TYPE : message\""),
            ),
        );
    }
    let head = from_chars(&chars, 0, k);
    let tail = from_chars(&chars, k + 1, n);
    assert(chars@.subrange(0, k as int) == chars@.take(k as int));
    assert(chars@.subrange(k + 1, n as int) == chars@.skip(k + 1));
    Ok((CommitType::from_str(head.as_str()), trim(tail.as_str())))
}

} // verus!

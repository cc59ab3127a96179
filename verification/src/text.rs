//! Character-level tests on strings.
use vstd::prelude::*;
use vstd::string::*;

verus! {

/// `pattern` occurs in `text` starting at position `start`.
pub open spec fn occurs_at(text: Seq<char>, pattern: Seq<char>, start: int) -> bool {
    0 <= start && start + pattern.len() <= text.len() && text.subrange(start, start + pattern.len())
        == pattern
}

/// `pattern` occurs somewhere in `text`.
pub open spec fn occurs_in(text: Seq<char>, pattern: Seq<char>) -> bool {
    exists|start: int| occurs_at(text, pattern, start)
}

/// A pattern occurs in any text that holds it, and in no text shorter than itself.
pub proof fn lemma_occurs_in(before: Seq<char>, pattern: Seq<char>, after: Seq<char>, text: Seq<char>)
    ensures
        occurs_in(before + pattern + after, pattern),
        pattern.len() > text.len() ==> !occurs_in(text, pattern),
{
    let whole = before + pattern + after;
    assert(whole.subrange(before.len() as int, before.len() + pattern.len() as int) =~= pattern);
    assert(occurs_at(whole, pattern, before.len() as int));
}

/// Whether `pattern` occurs in `text` at position `start` (character positions).
fn matches_at(text: &str, pattern: &str, start: usize) -> (b: bool)
    requires
        start + pattern@.len() <= text@.len(),
        text@.len() <= usize::MAX,
    ensures
        b == occurs_at(text@, pattern@, start as int),
{
    let n = pattern.unicode_len();
    let mut i: usize = 0;
    while i < n
        invariant
            n == pattern@.len(),
            start + n <= text@.len(),
            text@.len() <= usize::MAX,
            i <= n,
            forall|j: int| 0 <= j < i ==> text@[start + j] == pattern@[j],
        decreases n - i,
    {
        if text.get_char(start + i) != pattern.get_char(i) {
            assert(text@.subrange(start as int, start + n)[i as int] != pattern@[i as int]);
            return false;
        }
        i = i + 1;
    }
    assert(text@.subrange(start as int, start + n) =~= pattern@);
    true
}

/// Whether `text` begins with `prefix`.
pub fn starts_with(text: &str, prefix: &str) -> (b: bool)
    ensures
        b == (prefix@.len() <= text@.len() && text@.subrange(0, prefix@.len() as int) == prefix@),
{
    let n = prefix.unicode_len();
    let len = text.unicode_len();
    if n > len {
        return false;
    }
    matches_at(text, prefix, 0)
}

/// Whether the two texts are the same.
pub fn equals(a: &str, b: &str) -> (same: bool)
    ensures
        same == (a@ == b@),
{
    let n = a.unicode_len();
    if n != b.unicode_len() {
        return false;
    }
    let same = matches_at(a, b, 0);
    assert(a@.subrange(0, n as int) =~= a@);
    same
}

/// Whether `pattern` occurs anywhere in `text`.
pub fn contains(text: &str, pattern: &str) -> (b: bool)
    ensures
        b == occurs_in(text@, pattern@),
{
    let n = pattern.unicode_len();
    let len = text.unicode_len();
    if n > len {
        assert forall|start: int| !occurs_at(text@, pattern@, start) by {}
        return false;
    }
    if n == 0 {
        assert(text@.subrange(0, 0) =~= pattern@);
        assert(occurs_at(text@, pattern@, 0));
        return true;
    }
    let mut start: usize = 0;
    while start <= len - n
        invariant
            n == pattern@.len(),
            len == text@.len(),
            1 <= n <= len,
            forall|s: int| 0 <= s < start ==> !occurs_at(text@, pattern@, s),
        decreases len - n + 1 - start,
    {
        if matches_at(text, pattern, start) {
            return true;
        }
        start = start + 1;
    }
    assert forall|s: int| !occurs_at(text@, pattern@, s) by {
        if s >= start {
            assert(s + n > len);
        }
    }
    false
}

} // verus!

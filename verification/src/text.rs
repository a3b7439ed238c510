//! Character-level searches in text.

use vstd::prelude::*;
use vstd::string::StrSliceExecFns;

verus! {

/// `i` is the first position at or after `from` that holds `c`, or the end of
/// the text when none does.
pub open spec fn is_first_from(text: Seq<char>, c: char, from: int, i: int) -> bool {
    &&& from <= i <= text.len()
    &&& forall|j: int| from <= j < i ==> text[j] != c
    &&& i < text.len() ==> text[i] == c
}

/// The needle occurs in the haystack starting at position `at`.
pub open spec fn occurs_at(haystack: Seq<char>, needle: Seq<char>, at: int) -> bool {
    &&& 0 <= at
    &&& at + needle.len() <= haystack.len()
    &&& haystack.subrange(at, at + needle.len()) == needle
}

/// The needle occurs somewhere in the haystack.
pub open spec fn contains_text_spec(haystack: Seq<char>, needle: Seq<char>) -> bool {
    exists|at: int| occurs_at(haystack, needle, at)
}

/// The first position at or after `from` that holds `c`, or the length of the
/// text when none does.
pub(crate) fn first_index_from(text: &str, c: char, from: usize) -> (i: usize)
    requires
        from <= text@.len(),
    ensures
        is_first_from(text@, c, from as int, i as int),
{
    let n = text.unicode_len();
    let mut i = from;
    while i < n && text.get_char(i) != c
        invariant
            from <= i <= n,
            n == text@.len(),
            forall|j: int| from <= j < i ==> text@[j] != c,
        decreases n - i,
    {
        i += 1;
    }
    i
}

/// The needle occurs in the haystack at position `at`.
fn occurs_at_exec(haystack: &str, needle: &str, at: usize) -> (found: bool)
    requires
        at + needle@.len() <= haystack@.len(),
    ensures
        found == occurs_at(haystack@, needle@, at as int),
{
    let m = needle.unicode_len();
    let n = haystack.unicode_len();
    let mut k: usize = 0;
    while k < m
        invariant
            k <= m,
            m == needle@.len(),
            n == haystack@.len(),
            at + m <= n,
            forall|j: int| 0 <= j < k ==> haystack@[at + j] == needle@[j],
        decreases m - k,
    {
        if haystack.get_char(at + k) != needle.get_char(k) {
            assert(haystack@.subrange(at as int, at + m)[k as int] != needle@[k as int]);
            return false;
        }
        k += 1;
    }
    assert(haystack@.subrange(at as int, at + m) =~= needle@);
    true
}

/// Whether the needle occurs somewhere in the haystack.
pub fn contains_text(haystack: &str, needle: &str) -> (found: bool)
    ensures
        found == contains_text_spec(haystack@, needle@),
{
    let n = haystack.unicode_len();
    let m = needle.unicode_len();
    if m > n {
        return false;
    }
    if m == 0 {
        assert(haystack@.subrange(0, 0) =~= needle@);
        assert(occurs_at(haystack@, needle@, 0));
        return true;
    }
    let mut at: usize = 0;
    while at <= n - m
        invariant
            n == haystack@.len(),
            m == needle@.len(),
            1 <= m <= n,
            at <= n - m + 1,
            forall|j: int| 0 <= j < at ==> !occurs_at(haystack@, needle@, j),
        decreases n - at + 1,
    {
        if occurs_at_exec(haystack, needle, at) {
            return true;
        }
        at += 1;
    }
    false
}

} // verus!

//! Small searches over text, by character.

use vstd::prelude::*;
use vstd::string::*;

verus! {

/// The length of the longest prefix of `s` that does not hold `c`: the place
/// of the first `c`, or the length of `s` where there is none.
pub open spec fn span_before(s: Seq<char>, c: char) -> nat
    decreases s.len(),
{
    if s.len() == 0 || s[0] == c {
        0
    } else {
        1 + span_before(s.skip(1), c)
    }
}

/// The place just behind the last `c` in `s`, or zero where there is none.
pub open spec fn tail_start(s: Seq<char>, c: char) -> nat
    decreases s.len(),
{
    if s.len() == 0 {
        0
    } else if s.last() == c {
        s.len()
    } else {
        tail_start(s.drop_last(), c)
    }
}

/// What follows the last `c` in `s`; all of `s` where there is none.
pub open spec fn last_segment(s: Seq<char>, c: char) -> Seq<char> {
    s.skip(tail_start(s, c) as int)
}

/// `s` begins with `prefix`.
pub open spec fn starts_with(s: Seq<char>, prefix: Seq<char>) -> bool {
    prefix.len() <= s.len() && s.take(prefix.len() as int) == prefix
}

/// A prefix without `c` that ends at the end of the text or at a `c` is the
/// longest such prefix.
pub proof fn lemma_span_before(s: Seq<char>, c: char, k: int)
    requires
        0 <= k <= s.len(),
        forall|i: int| 0 <= i < k ==> s[i] != c,
        k == s.len() || s[k] == c,
    ensures
        span_before(s, c) == k,
    decreases k,
{
    if k > 0 {
        lemma_span_before(s.skip(1), c, k - 1);
    }
}

/// The place behind the last `c` is within the text, no `c` follows it, and
/// a `c` stands right before it unless it is zero.
pub proof fn lemma_tail_start(s: Seq<char>, c: char)
    ensures
        tail_start(s, c) <= s.len(),
        forall|i: int| tail_start(s, c) <= i < s.len() ==> s[i] != c,
        tail_start(s, c) > 0 ==> s[tail_start(s, c) - 1] == c,
    decreases s.len(),
{
    if s.len() > 0 && s.last() != c {
        let front = s.drop_last();
        lemma_tail_start(front, c);
        assert forall|i: int| tail_start(s, c) <= i < s.len() implies s[i] != c by {
            if i < front.len() {
                assert(front[i] != c);
            }
        }
    }
}

/// Finds the first `c` in `text` at or behind `start`; `len` where there is
/// none.
pub(crate) fn find(text: &str, start: usize, len: usize, c: char) -> (k: usize)
    requires
        start <= len,
        len == text@.len(),
    ensures
        start <= k <= len,
        k == start + span_before(text@.skip(start as int), c),
        forall|i: int| start <= i < k ==> text@[i] != c,
        k == len || text@[k as int] == c,
{
    let mut k: usize = start;
    while k < len && text.get_char(k) != c
        invariant
            start <= k <= len,
            len == text@.len(),
            forall|i: int| start <= i < k ==> text@[i] != c,
        decreases len - k,
    {
        k += 1;
    }
    proof {
        lemma_span_before(text@.skip(start as int), c, k - start);
    }
    k
}

/// Whether `text` begins with `prefix`.
pub fn has_prefix(text: &str, prefix: &str) -> (b: bool)
    ensures
        b == starts_with(text@, prefix@),
{
    let n: usize = prefix.unicode_len();
    if text.unicode_len() < n {
        return false;
    }
    let mut i: usize = 0;
    while i < n
        invariant
            i <= n,
            n == prefix@.len(),
            n <= text@.len(),
            forall|j: int| 0 <= j < i ==> text@[j] == prefix@[j],
        decreases n - i,
    {
        if text.get_char(i) != prefix.get_char(i) {
            return false;
        }
        i += 1;
    }
    assert(text@.take(n as int) =~= prefix@);
    true
}

/// Whether the two texts are the same.
pub fn same(a: &str, b: &str) -> (r: bool)
    ensures
        r == (a@ == b@),
{
    if a.unicode_len() != b.unicode_len() {
        return false;
    }
    let r: bool = has_prefix(a, b);
    proof {
        assert(a@.take(a@.len() as int) =~= a@);
    }
    r
}

/// What follows the last `c` in `text`; all of `text` where there is none.
pub fn after_last<'a>(text: &'a str, c: char) -> (tail: &'a str)
    ensures
        tail@ == last_segment(text@, c),
{
    let len: usize = text.unicode_len();
    let mut k: usize = len;
    proof {
        assert(text@.take(len as int) =~= text@);
    }
    while k > 0 && text.get_char(k - 1) != c
        invariant
            k <= len,
            len == text@.len(),
            tail_start(text@, c) == tail_start(text@.take(k as int), c),
        decreases k,
    {
        proof {
            assert(text@.take(k as int).drop_last() =~= text@.take(k - 1));
        }
        k -= 1;
    }
    text.substring_char(k, len)
}

} // verus!

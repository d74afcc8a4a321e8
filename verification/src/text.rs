//! Small helpers on text that the stores and views share.

use vstd::prelude::*;
use vstd::string::*;

verus! {

/// `str`'s `==`: two texts are equal exactly when they hold the same
/// characters in the same order.
pub assume_specification[ <str as PartialEq>::eq ](a: &str, b: &str) -> (same: bool)
    ensures
        same == (a@ == b@),
;

/// `String::push`: appends one character at the end.
pub assume_specification[ String::push ](s: &mut String, c: char)
    ensures
        final(s)@ == old(s)@.push(c),
;

/// Whether two texts hold the same characters.
pub fn same_text(a: &str, b: &str) -> (same: bool)
    ensures
        same == (a@ == b@),
{
    *a == *b
}

/// Index of the last occurrence of `sep` in `s`, or `-1` where there is none.
pub open spec fn last_index_of(s: Seq<char>, sep: char) -> int
    decreases s.len(),
{
    if s.len() == 0 {
        -1
    } else if s.last() == sep {
        s.len() - 1
    } else {
        last_index_of(s.drop_last(), sep)
    }
}

/// What follows the last `sep` in `s`; all of `s` where it holds no `sep`.
pub open spec fn last_segment(s: Seq<char>, sep: char) -> Seq<char> {
    s.subrange(last_index_of(s, sep) + 1, s.len() as int)
}

/// `last_index_of` names a position that holds `sep`, and nothing after it does.
pub proof fn lemma_last_index_of(s: Seq<char>, sep: char)
    ensures
        -1 <= last_index_of(s, sep) < s.len(),
        last_index_of(s, sep) >= 0 ==> s[last_index_of(s, sep)] == sep,
        forall|j: int| last_index_of(s, sep) < j < s.len() ==> s[j] != sep,
    decreases s.len(),
{
    if s.len() > 0 && s.last() != sep {
        let t = s.drop_last();
        lemma_last_index_of(t, sep);
        assert forall|j: int| last_index_of(s, sep) < j < s.len() implies s[j] != sep by {
            if j < t.len() {
                assert(t[j] == s[j]);
            }
        }
    }
}

/// Any position that holds `sep` and has none after it is the last index.
pub proof fn lemma_last_index_unique(s: Seq<char>, sep: char, k: int)
    requires
        -1 <= k < s.len(),
        k >= 0 ==> s[k] == sep,
        forall|j: int| k < j < s.len() ==> s[j] != sep,
    ensures
        last_index_of(s, sep) == k,
{
    lemma_last_index_of(s, sep);
    let l = last_index_of(s, sep);
    if l < k {
        assert(s[k] != sep);
    } else if k < l {
        assert(s[l] != sep);
    }
}

/// The last segment holds no separator, and `s` is what stands before it,
/// separator included, followed by it.
pub proof fn lemma_last_segment(s: Seq<char>, sep: char)
    ensures
        !last_segment(s, sep).contains(sep),
        s == s.subrange(0, last_index_of(s, sep) + 1) + last_segment(s, sep),
        last_segment(s, sep).len() == s.len() - last_index_of(s, sep) - 1,
{
    lemma_last_index_of(s, sep);
    let k = last_index_of(s, sep);
    let seg = last_segment(s, sep);
    if seg.contains(sep) {
        let i = choose|i: int| 0 <= i < seg.len() && seg[i] == sep;
        assert(s[k + 1 + i] == sep);
    }
    assert(s =~= s.subrange(0, k + 1) + seg);
}

/// The part of `s` after its last `sep`, as `str::rsplit(sep).next()` gives it.
pub fn last_segment_of(s: &str, sep: char) -> (r: String)
    ensures
        r@ == last_segment(s@, sep),
        !r@.contains(sep),
{
    let n: usize = s.unicode_len();
    let mut i: usize = n;
    while i > 0 && s.get_char(i - 1) != sep
        invariant
            i <= n,
            n == s@.len(),
            forall|j: int| i <= j < n ==> s@[j] != sep,
        decreases i,
    {
        i = i - 1;
    }
    proof {
        lemma_last_index_unique(s@, sep, i as int - 1);
        lemma_last_segment(s@, sep);
    }
    String::from_str(s.substring_char(i, n))
}

} // verus!

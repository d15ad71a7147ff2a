//! Character-level helpers on string slices, stated over their `Seq<char>` views.

use vstd::prelude::*;
use vstd::string::*;

verus! {

/// `prefix` is an initial segment of `s`.
pub open spec fn has_prefix(s: Seq<char>, prefix: Seq<char>) -> bool {
    prefix.len() <= s.len() && s.subrange(0, prefix.len() as int) == prefix
}

/// Prepending `prefix` yields a sequence that has it as a prefix.
pub proof fn lemma_prefix_of_concat(prefix: Seq<char>, rest: Seq<char>)
    ensures
        has_prefix(prefix + rest, prefix),
{
    assert((prefix + rest).subrange(0, prefix.len() as int) =~= prefix);
}

/// A prefix of a prefix is a prefix.
pub proof fn lemma_prefix_transitive(s: Seq<char>, mid: Seq<char>, prefix: Seq<char>)
    requires
        has_prefix(s, mid),
        has_prefix(mid, prefix),
    ensures
        has_prefix(s, prefix),
{
    assert(s.subrange(0, prefix.len() as int) =~= mid.subrange(0, prefix.len() as int)) by {
        assert forall|j: int| 0 <= j < prefix.len() implies s[j] == mid[j] by {
            assert(s.subrange(0, mid.len() as int)[j] == mid[j]);
        }
    }
}

/// Whether `s` begins with `prefix`.
pub(crate) fn starts_with(s: &str, prefix: &str) -> (r: bool)
    ensures
        r == has_prefix(s@, prefix@),
{
    let n: usize = s.unicode_len();
    let m: usize = prefix.unicode_len();
    if m > n {
        return false;
    }
    let mut i: usize = 0;
    while i < m
        invariant
            i <= m <= n,
            n == s@.len(),
            m == prefix@.len(),
            forall|j: int| 0 <= j < i ==> s@[j] == prefix@[j],
        decreases m - i,
    {
        if s.get_char(i) != prefix.get_char(i) {
            assert(s@.subrange(0, m as int)[i as int] != prefix@[i as int]);
            return false;
        }
        i += 1;
    }
    assert(s@.subrange(0, m as int) =~= prefix@);
    true
}

/// Whether two string slices hold the same characters.
pub(crate) fn same_text(a: &str, b: &str) -> (r: bool)
    ensures
        r == (a@ == b@),
{
    let n: usize = a.unicode_len();
    let m: usize = b.unicode_len();
    if n != m {
        return false;
    }
    let r = starts_with(a, b);
    proof {
        if r {
            assert(a@.subrange(0, m as int) =~= a@);
        } else if a@ == b@ {
            assert(a@.subrange(0, m as int) =~= b@);
        }
    }
    r
}

/// The text of `s` from character `from` to its end, as an owned string.
pub(crate) fn tail_from(s: &str, from: usize) -> (r: String)
    requires
        from <= s@.len(),
    ensures
        r@ == s@.skip(from as int),
{
    let n: usize = s.unicode_len();
    let part = s.substring_char(from, n);
    assert(s@.subrange(from as int, n as int) =~= s@.skip(from as int));
    String::from_str(part)
}

/// The first `to` characters of `s`, as an owned string.
pub(crate) fn head_to(s: &str, to: usize) -> (r: String)
    requires
        to <= s@.len(),
    ensures
        r@ == s@.take(to as int),
{
    let part = s.substring_char(0, to);
    assert(s@.subrange(0, to as int) =~= s@.take(to as int));
    String::from_str(part)
}

/// `head` followed by `tail`, as an owned string.
pub(crate) fn join(head: &str, tail: &str) -> (r: String)
    ensures
        r@ == head@ + tail@,
{
    let mut out = String::from_str(head);
    out.append(tail);
    out
}

} // verus!

//! Substring matching over display names.
//!
//! Behavior matching and every name-keyed query in this crate go by one
//! rule: a name matches a pattern when the pattern occurs in the name as
//! a contiguous run of characters. [`contains_seq`] is that rule stated
//! over character sequences; [`str_contains`] decides it.

use vstd::prelude::*;

verus! {

/// `pat` occurs in `hay` starting exactly at `i`.
pub open spec fn matches_at(hay: Seq<char>, pat: Seq<char>, i: int) -> bool {
    0 <= i && i + pat.len() <= hay.len() && hay.subrange(i, i + pat.len() as int) == pat
}

/// `pat` occurs contiguously inside `hay`.
pub open spec fn contains_seq(hay: Seq<char>, pat: Seq<char>) -> bool {
    exists|i: int| #[trigger] matches_at(hay, pat, i)
}

/// Whether `pat` starts at position `at` of `hay`.
fn matches_here(hay: &str, pat: &str, at: usize) -> (r: bool)
    requires
        at + pat@.len() <= hay@.len(),
        hay@.len() <= usize::MAX,
    ensures
        r == matches_at(hay@, pat@, at as int),
{
    let pat_len = pat.unicode_len();
    let mut j: usize = 0;
    while j < pat_len
        invariant
            pat_len == pat@.len(),
            at + pat@.len() <= hay@.len(),
            hay@.len() <= usize::MAX,
            0 <= j <= pat_len,
            forall|k: int| 0 <= k < j ==> hay@[at + k] == pat@[k],
        decreases pat_len - j,
    {
        if hay.get_char(at + j) != pat.get_char(j) {
            assert(hay@.subrange(at as int, at + pat@.len() as int)[j as int] != pat@[j as int]);
            return false;
        }
        j += 1;
    }
    assert(hay@.subrange(at as int, at + pat@.len() as int) =~= pat@);
    true
}

/// Whether two strings hold the same characters.
pub fn str_eq(a: &str, b: &str) -> (r: bool)
    ensures
        r == (a@ == b@),
{
    let an = a.unicode_len();
    let bn = b.unicode_len();
    if an != bn {
        return false;
    }
    let mut i: usize = 0;
    while i < an
        invariant
            an == a@.len(),
            bn == b@.len(),
            an == bn,
            0 <= i <= an,
            forall|k: int| 0 <= k < i ==> a@[k] == b@[k],
        decreases an - i,
    {
        if a.get_char(i) != b.get_char(i) {
            return false;
        }
        i += 1;
    }
    proof {
        assert(a@ =~= b@);
    }
    true
}

/// A fresh copy of an optional display name.
pub fn clone_name(n: &Option<String>) -> (r: Option<String>)
    ensures
        r == *n,
{
    match n {
        Some(s) => Some(s.clone()),
        None => None,
    }
}

/// Whether `pat` occurs anywhere in `hay`; the "contains" rule used for
/// all name matching.
pub fn str_contains(hay: &str, pat: &str) -> (r: bool)
    ensures
        r == contains_seq(hay@, pat@),
{
    let hay_len = hay.unicode_len();
    let pat_len = pat.unicode_len();
    if pat_len > hay_len {
        assert(!contains_seq(hay@, pat@));
        return false;
    }
    if pat_len == 0 {
        assert(pat@ =~= hay@.subrange(0, 0));
        assert(matches_at(hay@, pat@, 0));
        return true;
    }
    let mut i: usize = 0;
    while i <= hay_len - pat_len
        invariant
            hay_len == hay@.len(),
            pat_len == pat@.len(),
            1 <= pat_len <= hay_len,
            0 <= i <= hay_len - pat_len + 1,
            forall|k: int| 0 <= k < i ==> !matches_at(hay@, pat@, k),
        decreases hay_len - pat_len - i + 1,
    {
        if matches_here(hay, pat, i) {
            assert(contains_seq(hay@, pat@));
            return true;
        }
        i += 1;
    }
    assert(forall|k: int| matches_at(hay@, pat@, k) ==> 0 <= k < i);
    false
}

} // verus!

//! Substring search on the bytes of two texts.

use vstd::prelude::*;
use crate::encoding::lemma_occurs_in_encoding;
use crate::text::{occurs_at, occurs_in};

verus! {

/// Whether `pat` stands in `hay` at index `at`.
fn occurs_here(hay: &[u8], pat: &[u8], at: usize) -> (found: bool)
    requires
        at + pat@.len() <= hay@.len(),
    ensures
        found == occurs_at(hay@, pat@, at as int),
{
    let n: usize = hay.len();
    let m: usize = pat.len();
    let mut i: usize = 0;
    while i < m
        invariant
            i <= m,
            m == pat@.len(),
            n == hay@.len(),
            at + m <= n,
            forall|j: int| 0 <= j < i ==> hay@[at + j] == pat@[j],
        decreases m - i,
    {
        if hay[at + i] != pat[i] {
            return false;
        }
        i += 1;
    }
    assert(hay@.subrange(at as int, at + m) == pat@);
    true
}

/// Whether `needle` occurs in `haystack`, character for character. The
/// empty needle occurs in every text.
///
/// Compares the needle with the haystack at each place in turn, so the time
/// taken grows with the product of the two lengths at worst.
pub fn contains(haystack: &str, needle: &str) -> (found: bool)
    ensures
        found == occurs_in(needle@, haystack@),
{
    let hay = haystack.as_bytes();
    let pat = needle.as_bytes();
    let n: usize = hay.len();
    let m: usize = pat.len();
    proof {
        lemma_occurs_in_encoding(needle@, haystack@);
    }
    if m == 0 {
        assert(occurs_at(hay@, pat@, 0)) by {
            assert(hay@.subrange(0, 0) == pat@);
        }
        return true;
    }
    if m > n {
        return false;
    }
    let last: usize = n - m;
    let mut at: usize = 0;
    while at <= last
        invariant
            0 < m <= n,
            n == hay@.len(),
            m == pat@.len(),
            last == n - m,
            at <= last + 1,
            forall|k: int| 0 <= k < at ==> !occurs_at(hay@, pat@, k),
            occurs_in(needle@, haystack@) <==> occurs_in(pat@, hay@),
        decreases last + 1 - at,
    {
        if occurs_here(hay, pat, at) {
            return true;
        }
        at += 1;
    }
    false
}

} // verus!

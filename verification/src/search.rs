//! The predicate and search family: pure boolean tests over codepoints.
//! Substring tests compare codepoint ranges, which for valid UTF-8 coincides
//! with byte-level containment.

use vstd::prelude::*;
use crate::handle::Str;
use crate::handle::length;
use crate::handle::getCharAt;
use crate::model::matches_at;
use crate::model::contains_seq;

verus! {

/// Whether the pattern `p` occurs in `s` at codepoint offset `i`.
pub(crate) fn eq_at(s: &Str, i: usize, p: &Str) -> (r: bool)
    requires
        i + p@.len() <= s@.len(),
    ensures
        r == matches_at(s@, p@, i as int),
{
    proof {
        crate::handle::lemma_len_fits(s);
    }
    let m = length(p);
    let mut k: usize = 0;
    while k < m
        invariant
            i + m <= s@.len() <= usize::MAX,
            m == p@.len(),
            k <= m,
            forall|j: int| 0 <= j < k ==> s@[i + j] == p@[j],
        decreases m - k,
    {
        if getCharAt(s, i + k) != getCharAt(p, k) {
            proof {
                assert(s@.subrange(i as int, i + p@.len())[k as int] == s@[i + k]);
            }
            return false;
        }
        k += 1;
    }
    proof {
        assert(s@.subrange(i as int, i + p@.len()) =~= p@);
    }
    true
}

/// Whether the character `c` occurs anywhere in `s`.
pub fn containsChar(s: &Str, c: char) -> (r: bool)
    ensures
        r == s@.contains(c),
{
    let n = length(s);
    let mut i: usize = 0;
    while i < n
        invariant
            n == s@.len(),
            i <= n,
            forall|j: int| 0 <= j < i ==> s@[j] != c,
        decreases n - i,
    {
        if getCharAt(s, i) == c {
            return true;
        }
        i += 1;
    }
    false
}

/// Whether the string `p` occurs as a contiguous codepoint range of `s`
/// (always true for an empty `p`).
pub fn contains(s: &Str, p: &Str) -> (r: bool)
    ensures
        r == contains_seq(s@, p@),
{
    let n = length(s);
    let m = length(p);
    if m > n {
        proof {
            assert(forall|i: int| !matches_at(s@, p@, i));
        }
        return false;
    }
    let mut i: usize = 0;
    while i <= n - m
        invariant
            n == s@.len(),
            m == p@.len(),
            m <= n,
            i <= n - m + 1,
            forall|j: int| 0 <= j < i ==> !matches_at(s@, p@, j),
        decreases n - m - i + 1,
    {
        if eq_at(s, i, p) {
            return true;
        }
        proof {
            if m == 0 {
                assert(s@.subrange(i as int, i as int) =~= p@);
            }
        }
        i += 1;
    }
    proof {
        assert(forall|j: int| !matches_at(s@, p@, j));
    }
    false
}

/// Whether `s` begins with the character `c`.
pub fn startsWithChar(s: &Str, c: char) -> (r: bool)
    ensures
        r == (s@.len() > 0 && s@[0] == c),
{
    if length(s) == 0 {
        return false;
    }
    getCharAt(s, 0) == c
}

/// Whether `s` begins with the string `p` (always true for an empty `p`).
pub fn startsWith(s: &Str, p: &Str) -> (r: bool)
    ensures
        r == matches_at(s@, p@, 0),
{
    let n = length(s);
    let m = length(p);
    if m > n {
        return false;
    }
    eq_at(s, 0, p)
}

/// Whether `s` ends with the character `c`.
pub fn endsWithChar(s: &Str, c: char) -> (r: bool)
    ensures
        r == (s@.len() > 0 && s@[s@.len() - 1] == c),
{
    let n = length(s);
    if n == 0 {
        return false;
    }
    getCharAt(s, n - 1) == c
}

/// Whether `s` ends with the string `p` (always true for an empty `p`).
pub fn endsWith(s: &Str, p: &Str) -> (r: bool)
    ensures
        r == matches_at(s@, p@, s@.len() - p@.len()),
{
    let n = length(s);
    let m = length(p);
    if m > n {
        return false;
    }
    eq_at(s, n - m, p)
}

} // verus!

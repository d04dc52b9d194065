//! The trim family: removing characters from the ends of a string — never
//! from its interior.  Each variant removes either whitespace, one given
//! character, or any character of a given set.

use vstd::prelude::*;
use crate::handle::Str;
use crate::handle::sub_str;
use crate::handle::length;
use crate::handle::getCharAt;
use crate::model::is_white_space;
use crate::model::ws_pred;
use crate::model::char_pred;
use crate::model::set_pred;
use crate::model::head_len;
use crate::model::tail_len;
use crate::model::trim_start_with;
use crate::model::trim_end_with;
use crate::model::trim_with;
use crate::model::lemma_head_len_is;
use crate::model::lemma_tail_len_is;

verus! {

/// Whether `c` has the Unicode White_Space property.
pub fn char_is_white_space(c: char) -> (r: bool)
    ensures
        r == is_white_space(c),
{
    let u = c as u32;
    (9 <= u && u <= 13) || u == 32 || u == 0x85 || u == 0xA0 || u == 0x1680 || (0x2000 <= u && u
        <= 0x200A) || u == 0x2028 || u == 0x2029 || u == 0x202F || u == 0x205F || u == 0x3000
}

/// Whether the character `c` occurs in `a`.
pub fn charsContain(a: &Vec<char>, c: char) -> (r: bool)
    ensures
        r == a@.contains(c),
{
    let n = a.len();
    let mut i: usize = 0;
    while i < n
        invariant
            n == a@.len(),
            i <= n,
            forall|j: int| 0 <= j < i ==> a@[j] != c,
        decreases n - i,
    {
        if a[i] == c {
            return true;
        }
        i += 1;
    }
    false
}

/// The length of the longest prefix of `s` on which `f` (an exact test for
/// the ghost predicate `p`) holds.
fn head_scan<F: Fn(char) -> bool>(s: &Str, f: F, Ghost(p): Ghost<spec_fn(char) -> bool>) -> (n:
    usize)
    requires
        forall|c: char| call_requires(f, (c,)),
        forall|c: char, b: bool| call_ensures(f, (c,), b) ==> b == p(c),
    ensures
        n == head_len(s@, p),
        n <= s@.len(),
{
    let len = length(s);
    let mut i: usize = 0;
    while i < len && f(getCharAt(s, i))
        invariant
            len == s@.len(),
            i <= len,
            forall|j: int| 0 <= j < i ==> p(s@[j]),
            forall|c: char| call_requires(f, (c,)),
            forall|c: char, b: bool| call_ensures(f, (c,), b) ==> b == p(c),
        decreases len - i,
    {
        i += 1;
    }
    proof {
        lemma_head_len_is(s@, p, i as int);
    }
    i
}

/// The length of the longest suffix of `s` on which `f` (an exact test for
/// the ghost predicate `p`) holds.
fn tail_scan<F: Fn(char) -> bool>(s: &Str, f: F, Ghost(p): Ghost<spec_fn(char) -> bool>) -> (n:
    usize)
    requires
        forall|c: char| call_requires(f, (c,)),
        forall|c: char, b: bool| call_ensures(f, (c,), b) ==> b == p(c),
    ensures
        n == tail_len(s@, p),
        n <= s@.len(),
{
    let len = length(s);
    let mut k: usize = len;
    while k > 0 && f(getCharAt(s, k - 1))
        invariant
            len == s@.len(),
            k <= len,
            forall|j: int| k <= j < len ==> p(s@[j]),
            forall|c: char| call_requires(f, (c,)),
            forall|c: char, b: bool| call_ensures(f, (c,), b) ==> b == p(c),
        decreases k,
    {
        k -= 1;
    }
    proof {
        lemma_tail_len_is(s@, p, (len - k) as int);
    }
    len - k
}

/// A copy of `s` without its leading whitespace.
pub fn trimStart(s: &Str) -> (r: Str)
    ensures
        r@ == trim_start_with(s@, ws_pred()),
{
    let f = |c: char| -> (b: bool)
        ensures
            b == is_white_space(c),
        { char_is_white_space(c) };
    let n = head_scan(s, f, Ghost(ws_pred()));
    let r = sub_str(s, n, length(s));
    proof {
        assert(r@ =~= trim_start_with(s@, ws_pred()));
    }
    r
}

/// A copy of `s` without its trailing whitespace.
pub fn trimEnd(s: &Str) -> (r: Str)
    ensures
        r@ == trim_end_with(s@, ws_pred()),
{
    let f = |c: char| -> (b: bool)
        ensures
            b == is_white_space(c),
        { char_is_white_space(c) };
    let n = tail_scan(s, f, Ghost(ws_pred()));
    let r = sub_str(s, 0, length(s) - n);
    proof {
        assert(r@ =~= trim_end_with(s@, ws_pred()));
    }
    r
}

/// A copy of `s` without leading or trailing whitespace.
pub fn trim(s: &Str) -> (r: Str)
    ensures
        r@ == trim_with(s@, ws_pred()),
{
    let t = trimStart(s);
    trimEnd(&t)
}

/// A copy of `s` without leading copies of the character `c`.
pub fn trimStartChar(s: &Str, c: char) -> (r: Str)
    ensures
        r@ == trim_start_with(s@, char_pred(c)),
{
    let f = |x: char| -> (b: bool)
        ensures
            b == (x == c),
        { x == c };
    let n = head_scan(s, f, Ghost(char_pred(c)));
    let r = sub_str(s, n, length(s));
    proof {
        assert(r@ =~= trim_start_with(s@, char_pred(c)));
    }
    r
}

/// A copy of `s` without trailing copies of the character `c`.
pub fn trimEndChar(s: &Str, c: char) -> (r: Str)
    ensures
        r@ == trim_end_with(s@, char_pred(c)),
{
    let f = |x: char| -> (b: bool)
        ensures
            b == (x == c),
        { x == c };
    let n = tail_scan(s, f, Ghost(char_pred(c)));
    let r = sub_str(s, 0, length(s) - n);
    proof {
        assert(r@ =~= trim_end_with(s@, char_pred(c)));
    }
    r
}

/// A copy of `s` without leading or trailing copies of the character `c`.
pub fn trimChar(s: &Str, c: char) -> (r: Str)
    ensures
        r@ == trim_with(s@, char_pred(c)),
{
    let t = trimStartChar(s, c);
    trimEndChar(&t, c)
}

/// A copy of `s` without leading characters drawn from `a`.
pub fn trimStartChars(s: &Str, a: &Vec<char>) -> (r: Str)
    ensures
        r@ == trim_start_with(s@, set_pred(a@)),
{
    let f = |x: char| -> (b: bool)
        ensures
            b == a@.contains(x),
        { charsContain(a, x) };
    let n = head_scan(s, f, Ghost(set_pred(a@)));
    let r = sub_str(s, n, length(s));
    proof {
        assert(r@ =~= trim_start_with(s@, set_pred(a@)));
    }
    r
}

/// A copy of `s` without trailing characters drawn from `a`.
pub fn trimEndChars(s: &Str, a: &Vec<char>) -> (r: Str)
    ensures
        r@ == trim_end_with(s@, set_pred(a@)),
{
    let f = |x: char| -> (b: bool)
        ensures
            b == a@.contains(x),
        { charsContain(a, x) };
    let n = tail_scan(s, f, Ghost(set_pred(a@)));
    let r = sub_str(s, 0, length(s) - n);
    proof {
        assert(r@ =~= trim_end_with(s@, set_pred(a@)));
    }
    r
}

/// A copy of `s` without leading or trailing characters drawn from `a`.
pub fn trimChars(s: &Str, a: &Vec<char>) -> (r: Str)
    ensures
        r@ == trim_with(s@, set_pred(a@)),
{
    let t = trimStartChars(s, a);
    trimEndChars(&t, a)
}

/// Whether `s` trims to the empty string: every codepoint of `s` is
/// whitespace (vacuously true of the empty string).
pub fn isWhitespace(s: &Str) -> (r: bool)
    ensures
        r == (forall|i: int| 0 <= i < s@.len() ==> is_white_space(s@[i])),
{
    let f = |c: char| -> (b: bool)
        ensures
            b == is_white_space(c),
        { char_is_white_space(c) };
    let n = head_scan(s, f, Ghost(ws_pred()));
    proof {
        crate::model::lemma_head_len_bound(s@, ws_pred());
    }
    n == length(s)
}

} // verus!

//! The string handle: an immutable sequence of Unicode scalar values,
//! together with the conversions between handles, native strings, and
//! character arrays.

use vstd::prelude::*;
use vstd::string::StrSliceExecFns;

verus! {

/// An immutable string value, addressed by codepoint.  `s@` is the sequence
/// of Unicode scalar values of `s`; every index and length in this crate's
/// contracts refers to that sequence, never to a byte offset.
#[derive(Debug)]
pub struct Str {
    pub(crate) chars: Vec<char>,
}

impl View for Str {
    type V = Seq<char>;

    closed spec fn view(&self) -> Seq<char> {
        self.chars@
    }
}

/// A string's codepoint count fits in `usize`: the codepoints are held one
/// per slot of a vector.
pub proof fn lemma_len_fits(s: &Str)
    ensures
        s@.len() <= usize::MAX,
{
    vstd::std_specs::vec::axiom_spec_len(&s.chars);
}

/// Wraps a character vector as a string value, taking ownership of it.
pub(crate) fn from_vec(v: Vec<char>) -> (r: Str)
    ensures
        r@ == v@,
{
    Str { chars: v }
}

impl PartialEq for Str {
    fn eq(&self, other: &Str) -> (r: bool) {
        if self.chars.len() != other.chars.len() {
            return false;
        }
        let n = self.chars.len();
        let mut i: usize = 0;
        while i < n
            invariant
                n == self@.len() == other@.len(),
                i <= n,
                forall|j: int| 0 <= j < i ==> self@[j] == other@[j],
            decreases n - i,
        {
            if self.chars[i] != other.chars[i] {
                return false;
            }
            i += 1;
        }
        proof {
            assert(self.chars@ =~= other.chars@);
        }
        true
    }
}

impl vstd::std_specs::cmp::PartialEqSpecImpl for Str {
    open spec fn obeys_eq_spec() -> bool {
        true
    }

    open spec fn eq_spec(&self, other: &Str) -> bool {
        self@ == other@
    }
}

/// A fresh copy of the codepoint range `[i, j)` of `s`.
pub(crate) fn sub_str(s: &Str, i: usize, j: usize) -> (r: Str)
    requires
        i <= j <= s@.len(),
    ensures
        r@ == s@.subrange(i as int, j as int),
{
    let mut v: Vec<char> = Vec::new();
    let mut k: usize = i;
    while k < j
        invariant
            i <= k <= j <= s@.len(),
            v@ =~= s@.subrange(i as int, k as int),
        decreases j - k,
    {
        v.push(s.chars[k]);
        k += 1;
    }
    proof {
        assert(v@ =~= s@.subrange(i as int, j as int));
    }
    Str { chars: v }
}

/// Appends the codepoint range `[i, j)` of `s` to `v`.
pub(crate) fn push_range(v: &mut Vec<char>, s: &Str, i: usize, j: usize)
    requires
        i <= j <= s@.len(),
    ensures
        final(v)@ == old(v)@ + s@.subrange(i as int, j as int),
{
    let mut k: usize = i;
    while k < j
        invariant
            i <= k <= j <= s@.len(),
            v@ =~= old(v)@ + s@.subrange(i as int, k as int),
        decreases j - k,
    {
        v.push(s.chars[k]);
        k += 1;
    }
}

/// Appends all codepoints of `s` to `v`.
pub(crate) fn push_all(v: &mut Vec<char>, s: &Str)
    ensures
        final(v)@ == old(v)@ + s@,
{
    let n = s.chars.len();
    push_range(v, s, 0, n);
    proof {
        assert(s@.subrange(0, n as int) =~= s@);
    }
}

/// A string value holding the codepoints of the native string `s`.
pub fn string(s: &str) -> (r: Str)
    ensures
        r@ == s@,
{
    let n = s.unicode_len();
    let mut v: Vec<char> = Vec::new();
    let mut i: usize = 0;
    while i < n
        invariant
            n == s@.len(),
            i <= n,
            v@ =~= s@.take(i as int),
        decreases n - i,
    {
        v.push(s.get_char(i));
        i += 1;
    }
    proof {
        assert(v@ =~= s@);
    }
    Str { chars: v }
}

/// The codepoint with the numeric value `code`.
///
/// This is the one operation whose input must be pre-validated by the caller:
/// `code` must be a Unicode scalar value (not a surrogate, not above
/// U+10FFFF).
///
/// Relies on `char::from_u32`, which returns `Some` exactly for Unicode
/// scalar values.
#[verifier::external_body]
pub fn fromCharCode(code: u32) -> (c: char)
    requires
        code < 0xD800 || (0xE000 <= code && code <= 0x10FFFF),
    ensures
        c as u32 == code,
{
    char::from_u32(code).unwrap()
}

/// The one-codepoint string holding `c`.
pub fn ofChar(c: char) -> (r: Str)
    ensures
        r@ == seq![c],
{
    let mut v: Vec<char> = Vec::new();
    v.push(c);
    proof {
        assert(v@ =~= seq![c]);
    }
    Str { chars: v }
}

/// The number of codepoints in `s`.
pub fn length(s: &Str) -> (n: usize)
    ensures
        n == s@.len(),
{
    s.chars.len()
}

/// The codepoint at zero-based codepoint offset `i`.
pub fn getCharAt(s: &Str, i: usize) -> (c: char)
    requires
        i < s@.len(),
    ensures
        c == s@[i as int],
{
    s.chars[i]
}

/// Whether `s` holds no codepoints.
pub fn isEmpty(s: &Str) -> (r: bool)
    ensures
        r == (s@.len() == 0),
{
    length(s) == 0
}

/// The character `c` repeated `count` times.
pub fn fromChar(c: char, count: usize) -> (r: Str)
    ensures
        r@ == crate::model::repeat_char(c, count as nat),
{
    let mut v: Vec<char> = Vec::new();
    let mut i: usize = 0;
    while i < count
        invariant
            i <= count,
            v@ =~= crate::model::repeat_char(c, i as nat),
        decreases count - i,
    {
        v.push(c);
        i += 1;
    }
    Str { chars: v }
}

/// The string whose codepoints are exactly the characters of `a`, in order.
/// The result owns its storage: mutating `a` afterwards never affects it.
pub fn fromChars(a: &Vec<char>) -> (r: Str)
    ensures
        r@ == a@,
        r@.len() == a@.len(),
{
    let mut v: Vec<char> = Vec::new();
    let mut i: usize = 0;
    let n = a.len();
    while i < n
        invariant
            n == a@.len(),
            i <= n,
            v@ =~= a@.take(i as int),
        decreases n - i,
    {
        v.push(a[i]);
        i += 1;
    }
    proof {
        assert(v@ =~= a@);
    }
    Str { chars: v }
}

/// The string whose codepoints are the characters of `a` in the index range
/// `[i, i + count)`, in order.
pub fn fromCharsAt(a: &Vec<char>, i: usize, count: usize) -> (r: Str)
    requires
        i + count <= a@.len(),
    ensures
        r@ == a@.subrange(i as int, i + count),
{
    proof {
        vstd::std_specs::vec::axiom_spec_len(a);
    }
    let mut v: Vec<char> = Vec::new();
    let mut k: usize = i;
    let j = i + count;
    while k < j
        invariant
            i <= k <= j <= a@.len(),
            v@ =~= a@.subrange(i as int, k as int),
        decreases j - k,
    {
        v.push(a[k]);
        k += 1;
    }
    Str { chars: v }
}

/// The characters of `s` as a fresh array: same length, same codepoint at
/// every index.
pub fn toCharArray(s: &Str) -> (r: Vec<char>)
    ensures
        r@ == s@,
        r@.len() == s@.len(),
        forall|i: int| 0 <= i < s@.len() ==> r@[i] == s@[i],
{
    let r = sub_str(s, 0, s.chars.len());
    proof {
        assert(r@ =~= s@);
    }
    r.chars
}

/// The characters of the codepoint range `[i, i + count)` of `s` as a fresh
/// array.
pub fn toCharArrayAt(s: &Str, i: usize, count: usize) -> (r: Vec<char>)
    requires
        i + count <= s@.len(),
    ensures
        r@ == s@.subrange(i as int, i + count),
{
    proof {
        vstd::std_specs::vec::axiom_spec_len(&s.chars);
    }
    sub_str(s, i, i + count).chars
}

} // verus!

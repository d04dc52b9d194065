//! Character-wise functional combinators.  Each traverses the codepoints of
//! a string left to right, exactly once, in order; the index-aware variants
//! count codepoints from zero, independent of byte width.
//!
//! A caller-supplied function may be nondeterministic as far as its contract
//! goes, so each combinator promises exactly this: every produced element is
//! related to the corresponding input by the callback's postcondition.

use vstd::prelude::*;
use crate::handle::Str;
use crate::handle::from_vec;
use crate::handle::push_all;
use crate::handle::length;
use crate::handle::getCharAt;
use crate::model::concat_all;
use crate::model::filter_by;
use crate::model::lemma_concat_all_push;
use crate::model::lemma_filter_by_push;

verus! {

/// The string whose `i`-th codepoint is `mapping` applied to the `i`-th
/// codepoint of `s`.
pub fn map<F: Fn(char) -> char>(mapping: F, s: &Str) -> (r: Str)
    requires
        forall|i: int| 0 <= i < s@.len() ==> call_requires(mapping, (s@[i],)),
    ensures
        r@.len() == s@.len(),
        forall|i: int| 0 <= i < s@.len() ==> call_ensures(mapping, (s@[i],), #[trigger] r@[i]),
{
    let n = length(s);
    let mut out: Vec<char> = Vec::new();
    let mut i: usize = 0;
    while i < n
        invariant
            n == s@.len(),
            i <= n,
            out@.len() == i,
            forall|j: int| 0 <= j < i ==> call_ensures(mapping, (s@[j],), #[trigger] out@[j]),
            forall|j: int| 0 <= j < n ==> call_requires(mapping, (s@[j],)),
        decreases n - i,
    {
        out.push(mapping(getCharAt(s, i)));
        i += 1;
    }
    from_vec(out)
}

/// Like `map`, but `mapping` is also handed the zero-based codepoint index,
/// starting at 0 and incremented by 1 per codepoint.
pub fn mapi<F: Fn(usize, char) -> char>(mapping: F, s: &Str) -> (r: Str)
    requires
        forall|i: int| 0 <= i < s@.len() ==> call_requires(mapping, (i as usize, s@[i])),
    ensures
        r@.len() == s@.len(),
        forall|i: int|
            0 <= i < s@.len() ==> call_ensures(mapping, (i as usize, s@[i]), #[trigger] r@[i]),
{
    let n = length(s);
    let mut out: Vec<char> = Vec::new();
    let mut i: usize = 0;
    while i < n
        invariant
            n == s@.len(),
            i <= n,
            out@.len() == i,
            forall|j: int|
                0 <= j < i ==> call_ensures(mapping, (j as usize, s@[j]), #[trigger] out@[j]),
            forall|j: int| 0 <= j < n ==> call_requires(mapping, (j as usize, s@[j])),
        decreases n - i,
    {
        out.push(mapping(i, getCharAt(s, i)));
        i += 1;
    }
    from_vec(out)
}

/// The codepoints of `s` for which `predicate` answered true, in order.
pub fn filter<F: Fn(char) -> bool>(predicate: F, s: &Str) -> (r: Str)
    requires
        forall|i: int| 0 <= i < s@.len() ==> call_requires(predicate, (s@[i],)),
    ensures
        exists|keep: Seq<bool>|
            {
                &&& keep.len() == s@.len()
                &&& forall|i: int|
                    0 <= i < s@.len() ==> call_ensures(predicate, (s@[i],), #[trigger] keep[i])
                &&& r@ == filter_by(s@, keep)
            },
{
    let n = length(s);
    let mut out: Vec<char> = Vec::new();
    let ghost mut keep: Seq<bool> = Seq::empty();
    let mut i: usize = 0;
    while i < n
        invariant
            n == s@.len(),
            i <= n,
            keep.len() == i,
            forall|j: int| 0 <= j < i ==> call_ensures(predicate, (s@[j],), #[trigger] keep[j]),
            out@ == filter_by(s@.take(i as int), keep),
            forall|j: int| 0 <= j < n ==> call_requires(predicate, (s@[j],)),
        decreases n - i,
    {
        let c = getCharAt(s, i);
        let b = predicate(c);
        if b {
            out.push(c);
        }
        proof {
            lemma_filter_by_push(s@.take(i as int), keep, s@[i as int], b);
            assert(s@.take(i + 1) =~= s@.take(i as int).push(s@[i as int]));
            keep = keep.push(b);
        }
        i += 1;
    }
    proof {
        assert(s@.take(n as int) =~= s@);
    }
    from_vec(out)
}

/// Whether `predicate` answers true for some codepoint of `s`.  The scan may
/// stop at the first hit; the answer is the same either way.
pub fn existsAny<F: Fn(char) -> bool>(predicate: F, s: &Str) -> (r: bool)
    requires
        forall|i: int| 0 <= i < s@.len() ==> call_requires(predicate, (s@[i],)),
    ensures
        r ==> exists|i: int| 0 <= i < s@.len() && call_ensures(predicate, (s@[i],), true),
        !r ==> forall|i: int| 0 <= i < s@.len() ==> call_ensures(predicate, (s@[i],), false),
{
    let n = length(s);
    let mut i: usize = 0;
    while i < n
        invariant
            n == s@.len(),
            i <= n,
            forall|j: int| 0 <= j < i ==> call_ensures(predicate, (s@[j],), false),
            forall|j: int| 0 <= j < n ==> call_requires(predicate, (s@[j],)),
        decreases n - i,
    {
        if predicate(getCharAt(s, i)) {
            return true;
        }
        i += 1;
    }
    false
}

/// Whether `predicate` answers true for every codepoint of `s` (vacuously
/// true of the empty string).  The scan may stop at the first miss; the
/// answer is the same either way.
pub fn forAll<F: Fn(char) -> bool>(predicate: F, s: &Str) -> (r: bool)
    requires
        forall|i: int| 0 <= i < s@.len() ==> call_requires(predicate, (s@[i],)),
    ensures
        r ==> forall|i: int| 0 <= i < s@.len() ==> call_ensures(predicate, (s@[i],), true),
        !r ==> exists|i: int| 0 <= i < s@.len() && call_ensures(predicate, (s@[i],), false),
{
    let n = length(s);
    let mut i: usize = 0;
    while i < n
        invariant
            n == s@.len(),
            i <= n,
            forall|j: int| 0 <= j < i ==> call_ensures(predicate, (s@[j],), true),
            forall|j: int| 0 <= j < n ==> call_requires(predicate, (s@[j],)),
        decreases n - i,
    {
        if !predicate(getCharAt(s, i)) {
            return false;
        }
        i += 1;
    }
    true
}

/// Calls `action` once per codepoint of `s`, left to right; `action`'s
/// postcondition therefore holds of every codepoint.
pub fn iter<F: Fn(char) -> ()>(action: F, s: &Str)
    requires
        forall|i: int| 0 <= i < s@.len() ==> call_requires(action, (s@[i],)),
    ensures
        forall|i: int| 0 <= i < s@.len() ==> call_ensures(action, (s@[i],), ()),
{
    let n = length(s);
    let mut i: usize = 0;
    while i < n
        invariant
            n == s@.len(),
            i <= n,
            forall|j: int| 0 <= j < i ==> call_ensures(action, (s@[j],), ()),
            forall|j: int| 0 <= j < n ==> call_requires(action, (s@[j],)),
        decreases n - i,
    {
        action(getCharAt(s, i));
        i += 1;
    }
}

/// Like `iter`, but `action` is also handed the zero-based codepoint index,
/// starting at 0 and incremented by 1 per codepoint.
pub fn iteri<F: Fn(usize, char) -> ()>(action: F, s: &Str)
    requires
        forall|i: int| 0 <= i < s@.len() ==> call_requires(action, (i as usize, s@[i])),
    ensures
        forall|i: int| 0 <= i < s@.len() ==> call_ensures(action, (i as usize, s@[i]), ()),
{
    let n = length(s);
    let mut i: usize = 0;
    while i < n
        invariant
            n == s@.len(),
            i <= n,
            forall|j: int| 0 <= j < i ==> call_ensures(action, (j as usize, s@[j]), ()),
            forall|j: int| 0 <= j < n ==> call_requires(action, (j as usize, s@[j])),
        decreases n - i,
    {
        action(i, getCharAt(s, i));
        i += 1;
    }
}

/// The concatenation, in codepoint order, of the strings `mapping` produced
/// for each codepoint of `s`: a one-to-many character-to-string expansion.
pub fn collect<F: Fn(char) -> Str>(mapping: F, s: &Str) -> (r: Str)
    requires
        forall|i: int| 0 <= i < s@.len() ==> call_requires(mapping, (s@[i],)),
    ensures
        exists|pieces: Seq<Str>|
            {
                &&& pieces.len() == s@.len()
                &&& forall|i: int|
                    0 <= i < s@.len() ==> call_ensures(mapping, (s@[i],), #[trigger] pieces[i])
                &&& r@ == concat_all(pieces)
            },
{
    let n = length(s);
    let mut out: Vec<char> = Vec::new();
    let ghost mut pieces: Seq<Str> = Seq::empty();
    let mut i: usize = 0;
    while i < n
        invariant
            n == s@.len(),
            i <= n,
            pieces.len() == i,
            forall|j: int| 0 <= j < i ==> call_ensures(mapping, (s@[j],), #[trigger] pieces[j]),
            out@ == concat_all(pieces),
            forall|j: int| 0 <= j < n ==> call_requires(mapping, (s@[j],)),
        decreases n - i,
    {
        let t = mapping(getCharAt(s, i));
        push_all(&mut out, &t);
        proof {
            lemma_concat_all_push(pieces, t);
            pieces = pieces.push(t);
        }
        i += 1;
    }
    from_vec(out)
}

/// The concatenation of `initializer(0)`, `initializer(1)`, …,
/// `initializer(count - 1)`, in that order.
pub fn init<F: Fn(usize) -> Str>(count: usize, initializer: F) -> (r: Str)
    requires
        forall|i: usize| i < count ==> call_requires(initializer, (i,)),
    ensures
        exists|pieces: Seq<Str>|
            {
                &&& pieces.len() == count
                &&& forall|i: int|
                    0 <= i < count ==> call_ensures(initializer, (i as usize,), #[trigger] pieces[i])
                &&& r@ == concat_all(pieces)
            },
{
    let mut out: Vec<char> = Vec::new();
    let ghost mut pieces: Seq<Str> = Seq::empty();
    let mut i: usize = 0;
    while i < count
        invariant
            i <= count,
            pieces.len() == i,
            forall|j: int|
                0 <= j < i ==> call_ensures(initializer, (j as usize,), #[trigger] pieces[j]),
            out@ == concat_all(pieces),
            forall|j: usize| j < count ==> call_requires(initializer, (j,)),
        decreases count - i,
    {
        let t = initializer(i);
        push_all(&mut out, &t);
        proof {
            lemma_concat_all_push(pieces, t);
            pieces = pieces.push(t);
        }
        i += 1;
    }
    from_vec(out)
}

} // verus!

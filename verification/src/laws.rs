//! Laws relating the operations: properties that hold of all inputs, stated
//! over the spec functions that the operations' own contracts use.

use vstd::prelude::*;
use crate::model::is_white_space;
use crate::model::ws_pred;
use crate::model::head_len;
use crate::model::tail_len;
use crate::model::trim_with;
use crate::model::lemma_head_len_bound;
use crate::model::lemma_tail_len_bound;
use crate::model::insert_seq;
use crate::model::remove_at_seq;
use crate::model::pad_left_seq;
use crate::model::pad_right_seq;

verus! {

/// Rebuilding a string from its character array yields the original.
/// `toCharArray` hands back exactly the codepoints of `s`, and `fromChars`
/// produces a string with exactly the codepoints of its argument, so the
/// composition is the identity.
pub proof fn lemma_chars_round_trip(s: Seq<char>, a: Seq<char>, r: Seq<char>)
    requires
        a == s,
        r == a,
    ensures
        r == s,
{
}

/// Padding to a target count at or below the current length returns the
/// string unchanged — padding never truncates.
pub proof fn lemma_pad_noop(s: Seq<char>, count: int, c: char)
    requires
        count <= s.len(),
    ensures
        pad_left_seq(s, count, c) == s,
        pad_right_seq(s, count, c) == s,
{
}

/// Deleting, at the insertion point, as many codepoints as were inserted
/// undoes the insertion: `removeAt(insert(s, i, v), i, length(v)) == s`.
pub proof fn lemma_insert_remove_at(s: Seq<char>, i: int, v: Seq<char>)
    requires
        0 <= i <= s.len(),
    ensures
        remove_at_seq(insert_seq(s, i, v), i, v.len() as int) == s,
{
    assert(remove_at_seq(insert_seq(s, i, v), i, v.len() as int) =~= s);
}

/// Trimming is a fixed point: trimming an already-trimmed string changes
/// nothing, for any trimmed predicate.
pub proof fn lemma_trim_with_fixed_point(s: Seq<char>, p: spec_fn(char) -> bool)
    ensures
        trim_with(trim_with(s, p), p) == trim_with(s, p),
{
    let h = head_len(s, p);
    lemma_head_len_bound(s, p);
    let u = s.skip(h as int);
    lemma_tail_len_bound(u, p);
    let t0 = tail_len(u, p);
    let t = u.take(u.len() - t0);
    assert(trim_with(s, p) == t);
    if t.len() > 0 {
        assert(t[0] == u[0]);
        assert(u[0] == s[h as int]);
        assert(!p(t[0]));
        assert(t[t.len() - 1] == u[u.len() - t0 - 1]);
        assert(!p(t[t.len() - 1]));
    }
    assert(head_len(t, p) == 0);
    assert(t.skip(0) =~= t);
    assert(tail_len(t, p) == 0);
    assert(t.take(t.len() - 0) =~= t);
    assert(trim_with(t, p) == t);
}

/// `trim(trim(s)) == trim(s)` for all `s`.
pub proof fn lemma_trim_fixed_point(s: Seq<char>)
    ensures
        trim_with(trim_with(s, ws_pred()), ws_pred()) == trim_with(s, ws_pred()),
{
    lemma_trim_with_fixed_point(s, ws_pred());
}

/// A string is all whitespace exactly when trimming all whitespace from it
/// yields the empty string.
pub proof fn lemma_whitespace_iff_trim_empty(s: Seq<char>)
    ensures
        (forall|i: int| 0 <= i < s.len() ==> is_white_space(s[i])) <==> trim_with(
            s,
            ws_pred(),
        ).len() == 0,
{
    let p = ws_pred();
    let h = head_len(s, p);
    lemma_head_len_bound(s, p);
    let u = s.skip(h as int);
    lemma_tail_len_bound(u, p);
    let t0 = tail_len(u, p);
    if forall|i: int| 0 <= i < s.len() ==> is_white_space(s[i]) {
        assert(h == s.len());
        assert(u.len() == 0);
    }
    if trim_with(s, p).len() == 0 {
        assert(u.len() - t0 == 0);
        assert forall|i: int| 0 <= i < s.len() implies is_white_space(s[i]) by {
            if i < h {
                assert(p(s[i]));
            } else {
                assert(u[i - h] == s[i]);
                assert(p(u[i - h]));
            }
        }
    }
}

} // verus!

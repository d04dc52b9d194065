//! The mathematical model: spec functions over `Seq<char>` that the
//! executable operations are proved against.

use vstd::prelude::*;
use crate::handle::Str;

verus! {

/// The Unicode White_Space property, the set of characters removed by the
/// whitespace-trimming operations.
pub open spec fn is_white_space(c: char) -> bool {
    ||| (9 <= c as u32 && c as u32 <= 13)
    ||| c as u32 == 32
    ||| c as u32 == 0x85
    ||| c as u32 == 0xA0
    ||| c as u32 == 0x1680
    ||| (0x2000 <= c as u32 && c as u32 <= 0x200A)
    ||| c as u32 == 0x2028
    ||| c as u32 == 0x2029
    ||| c as u32 == 0x202F
    ||| c as u32 == 0x205F
    ||| c as u32 == 0x3000
}

/// The predicate trimmed by `trim`, `trimStart`, `trimEnd`.
pub open spec fn ws_pred() -> spec_fn(char) -> bool {
    |c: char| is_white_space(c)
}

/// The predicate trimmed by the `*Char` trim variants: exactly the character `c0`.
pub open spec fn char_pred(c0: char) -> spec_fn(char) -> bool {
    |c: char| c == c0
}

/// The predicate trimmed by the `*Chars` trim variants: any character of `a`.
pub open spec fn set_pred(a: Seq<char>) -> spec_fn(char) -> bool {
    |c: char| a.contains(c)
}

/// Length of the longest prefix of `s` all of whose characters satisfy `p`.
pub open spec fn head_len(s: Seq<char>, p: spec_fn(char) -> bool) -> nat
    decreases s.len(),
{
    if s.len() > 0 && p(s[0]) {
        (1 + head_len(s.skip(1), p)) as nat
    } else {
        0
    }
}

/// Length of the longest suffix of `s` all of whose characters satisfy `p`.
pub open spec fn tail_len(s: Seq<char>, p: spec_fn(char) -> bool) -> nat
    decreases s.len(),
{
    if s.len() > 0 && p(s[s.len() - 1]) {
        (1 + tail_len(s.drop_last(), p)) as nat
    } else {
        0
    }
}

/// `s` with its longest all-`p` prefix removed.
pub open spec fn trim_start_with(s: Seq<char>, p: spec_fn(char) -> bool) -> Seq<char> {
    s.skip(head_len(s, p) as int)
}

/// `s` with its longest all-`p` suffix removed.
pub open spec fn trim_end_with(s: Seq<char>, p: spec_fn(char) -> bool) -> Seq<char> {
    s.take(s.len() - tail_len(s, p))
}

/// `s` with its longest all-`p` prefix and suffix removed.
pub open spec fn trim_with(s: Seq<char>, p: spec_fn(char) -> bool) -> Seq<char> {
    trim_end_with(trim_start_with(s, p), p)
}

/// `head_len` is exactly the position of the first character failing `p`
/// (or the length, when every character satisfies `p`).
pub proof fn lemma_head_len_is(s: Seq<char>, p: spec_fn(char) -> bool, i: int)
    requires
        0 <= i <= s.len(),
        forall|j: int| 0 <= j < i ==> p(s[j]),
        i < s.len() ==> !p(s[i]),
    ensures
        head_len(s, p) == i,
    decreases i,
{
    if i > 0 {
        assert(forall|j: int| 0 <= j < i - 1 ==> p(s.skip(1)[j]));
        lemma_head_len_is(s.skip(1), p, i - 1);
    }
}

/// `tail_len` is exactly the number of trailing characters satisfying `p`,
/// counted from a scan that stopped at the first failure from the right.
pub proof fn lemma_tail_len_is(s: Seq<char>, p: spec_fn(char) -> bool, n: int)
    requires
        0 <= n <= s.len(),
        forall|j: int| s.len() - n <= j < s.len() ==> p(s[j]),
        n < s.len() ==> !p(s[s.len() - n - 1]),
    ensures
        tail_len(s, p) == n,
    decreases n,
{
    if n > 0 {
        assert(s.drop_last() =~= s.take(s.len() - 1));
        assert(forall|j: int|
            s.drop_last().len() - (n - 1) <= j < s.drop_last().len() ==> p(s.drop_last()[j]));
        lemma_tail_len_is(s.drop_last(), p, n - 1);
    }
}

/// The prefix counted by `head_len` lies inside `s`, satisfies `p`
/// throughout, and stops at a character failing `p` (when one exists).
pub proof fn lemma_head_len_bound(s: Seq<char>, p: spec_fn(char) -> bool)
    ensures
        head_len(s, p) <= s.len(),
        forall|j: int| 0 <= j < head_len(s, p) ==> p(s[j]),
        head_len(s, p) < s.len() ==> !p(s[head_len(s, p) as int]),
    decreases s.len(),
{
    if s.len() > 0 && p(s[0]) {
        lemma_head_len_bound(s.skip(1), p);
        assert forall|j: int| 0 <= j < head_len(s, p) implies p(s[j]) by {
            if j > 0 {
                assert(p(s.skip(1)[j - 1]));
            }
        }
    }
}

/// The suffix counted by `tail_len` lies inside `s`, satisfies `p`
/// throughout, and stops at a character failing `p` (when one exists).
pub proof fn lemma_tail_len_bound(s: Seq<char>, p: spec_fn(char) -> bool)
    ensures
        tail_len(s, p) <= s.len(),
        forall|j: int| s.len() - tail_len(s, p) <= j < s.len() ==> p(s[j]),
        tail_len(s, p) < s.len() ==> !p(s[s.len() - tail_len(s, p) - 1]),
    decreases s.len(),
{
    if s.len() > 0 && p(s[s.len() - 1]) {
        assert(s.drop_last() =~= s.take(s.len() - 1));
        lemma_tail_len_bound(s.drop_last(), p);
        assert forall|j: int| s.len() - tail_len(s, p) <= j < s.len() implies p(s[j]) by {
            if j < s.len() - 1 {
                assert(p(s.drop_last()[j]));
            }
        }
    }
}

/// The pattern `p` occurs in `s` at codepoint offset `i`.
pub open spec fn matches_at(s: Seq<char>, p: Seq<char>, i: int) -> bool {
    0 <= i && i + p.len() <= s.len() && s.subrange(i, i + p.len()) == p
}

/// The pattern `p` occurs somewhere in `s`.
pub open spec fn contains_seq(s: Seq<char>, p: Seq<char>) -> bool {
    exists|i: int| matches_at(s, p, i)
}

/// `v` spliced into `s` before codepoint offset `i`.
pub open spec fn insert_seq(s: Seq<char>, i: int, v: Seq<char>) -> Seq<char> {
    s.take(i) + v + s.skip(i)
}

/// `s` with the half-open codepoint range `[i, i + count)` deleted.
pub open spec fn remove_at_seq(s: Seq<char>, i: int, count: int) -> Seq<char> {
    s.take(i) + s.skip(i + count)
}

/// `count` copies of the character `c`.
pub open spec fn repeat_char(c: char, count: nat) -> Seq<char> {
    Seq::new(count, |i: int| c)
}

/// `s` left-padded with `c` up to `count` codepoints; unchanged when already
/// that long (padding never truncates).
pub open spec fn pad_left_seq(s: Seq<char>, count: int, c: char) -> Seq<char> {
    if count > s.len() {
        repeat_char(c, (count - s.len()) as nat) + s
    } else {
        s
    }
}

/// `s` right-padded with `c` up to `count` codepoints; unchanged when already
/// that long.
pub open spec fn pad_right_seq(s: Seq<char>, count: int, c: char) -> Seq<char> {
    if count > s.len() {
        s + repeat_char(c, (count - s.len()) as nat)
    } else {
        s
    }
}

/// `count` copies of `s`, concatenated.
pub open spec fn repeat_seq(s: Seq<char>, count: nat) -> Seq<char>
    decreases count,
{
    if count == 0 {
        Seq::empty()
    } else {
        repeat_seq(s, (count - 1) as nat) + s
    }
}

/// The concatenation of the strings of `ss`, in order.
pub open spec fn concat_all(ss: Seq<Str>) -> Seq<char>
    decreases ss.len(),
{
    if ss.len() == 0 {
        Seq::empty()
    } else {
        concat_all(ss.drop_last()) + ss.last()@
    }
}

/// Appending one more string extends the concatenation at the right.
pub proof fn lemma_concat_all_push(ss: Seq<Str>, t: Str)
    ensures
        concat_all(ss.push(t)) == concat_all(ss) + t@,
{
    assert(ss.push(t).drop_last() =~= ss);
}

/// The strings of `ss` concatenated with `sep` between consecutive elements,
/// none at the ends.
pub open spec fn join_all(sep: Seq<char>, ss: Seq<Str>) -> Seq<char>
    decreases ss.len(),
{
    if ss.len() == 0 {
        Seq::empty()
    } else if ss.len() == 1 {
        ss[0]@
    } else {
        join_all(sep, ss.drop_last()) + sep + ss.last()@
    }
}

/// The characters of `s` each followed by `sub`.
pub open spec fn sew_after(s: Seq<char>, sub: Seq<char>) -> Seq<char>
    decreases s.len(),
{
    if s.len() == 0 {
        Seq::empty()
    } else {
        seq![s[0]] + sub + sew_after(s.skip(1), sub)
    }
}

/// Replacement for the empty pattern: `sub` at every codepoint boundary of
/// `s`, both ends included.
pub open spec fn interleave_seq(s: Seq<char>, sub: Seq<char>) -> Seq<char> {
    sub + sew_after(s, sub)
}

/// `sub` substituted for every occurrence of `pat` in `s`, scanning left to
/// right; matches never overlap and never re-trigger on substituted text.
pub open spec fn replace_seq(s: Seq<char>, pat: Seq<char>, sub: Seq<char>) -> Seq<char>
    decreases s.len(),
{
    if pat.len() == 0 {
        interleave_seq(s, sub)
    } else if s.len() < pat.len() {
        s
    } else if s.subrange(0, pat.len() as int) == pat {
        sub + replace_seq(s.skip(pat.len() as int), pat, sub)
    } else {
        seq![s[0]] + replace_seq(s.skip(1), pat, sub)
    }
}

/// The characters of `s` kept where the corresponding entry of `keep` is
/// true, in order.
pub open spec fn filter_by(s: Seq<char>, keep: Seq<bool>) -> Seq<char>
    decreases s.len(),
{
    if s.len() == 0 || keep.len() == 0 {
        Seq::empty()
    } else {
        (if keep[0] {
            seq![s[0]]
        } else {
            Seq::empty()
        }) + filter_by(s.skip(1), keep.skip(1))
    }
}

/// Extending the string and the keep mask by one entry extends the filtered
/// result at the right.
pub proof fn lemma_filter_by_push(s: Seq<char>, keep: Seq<bool>, c: char, b: bool)
    requires
        s.len() == keep.len(),
    ensures
        filter_by(s.push(c), keep.push(b)) == filter_by(s, keep) + (if b {
            seq![c]
        } else {
            Seq::empty()
        }),
    decreases s.len(),
{
    if s.len() == 0 {
        assert(s.push(c)[0] == c);
        assert(keep.push(b)[0] == b);
        assert(s.push(c).skip(1) =~= Seq::<char>::empty());
        assert(keep.push(b).skip(1) =~= Seq::<bool>::empty());
        assert(filter_by(s.push(c).skip(1), keep.push(b).skip(1)) == Seq::<char>::empty());
        assert(filter_by(s.push(c), keep.push(b)) =~= filter_by(s, keep) + (if b {
            seq![c]
        } else {
            Seq::empty()
        }));
    } else {
        let x: Seq<char> = if keep[0] {
            seq![s[0]]
        } else {
            Seq::empty()
        };
        let bit: Seq<char> = if b {
            seq![c]
        } else {
            Seq::empty()
        };
        assert(s.push(c).skip(1) =~= s.skip(1).push(c));
        assert(keep.push(b).skip(1) =~= keep.skip(1).push(b));
        lemma_filter_by_push(s.skip(1), keep.skip(1), c, b);
        assert(filter_by(s.push(c), keep.push(b)) == x + (filter_by(s.skip(1), keep.skip(1))
            + bit));
        assert(x + (filter_by(s.skip(1), keep.skip(1)) + bit) =~= (x + filter_by(
            s.skip(1),
            keep.skip(1),
        )) + bit);
    }
}

} // verus!

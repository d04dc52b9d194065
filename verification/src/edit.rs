//! Structural transforms: splicing, truncating, slicing, padding, repeating,
//! concatenating, joining and replacing.  Every offset and count is a
//! codepoint offset or count, and every result is a fresh string value.

use vstd::prelude::*;
use crate::handle::Str;
use crate::handle::from_vec;
use crate::handle::sub_str;
use crate::handle::push_all;
use crate::handle::push_range;
use crate::handle::length;
use crate::handle::getCharAt;
use crate::search::eq_at;
use crate::model::insert_seq;
use crate::model::remove_at_seq;
use crate::model::repeat_char;
use crate::model::pad_left_seq;
use crate::model::pad_right_seq;
use crate::model::repeat_seq;
use crate::model::concat_all;
use crate::model::join_all;
use crate::model::sew_after;
use crate::model::interleave_seq;
use crate::model::replace_seq;
use crate::model::lemma_concat_all_push;

verus! {

/// The string `v` spliced into `s` before codepoint offset `i`.
pub fn insert(s: &Str, i: usize, v: &Str) -> (r: Str)
    requires
        i <= s@.len(),
    ensures
        r@ == insert_seq(s@, i as int, v@),
{
    let n = length(s);
    let mut out: Vec<char> = Vec::new();
    push_range(&mut out, s, 0, i);
    push_all(&mut out, v);
    push_range(&mut out, s, i, n);
    proof {
        assert(out@ =~= insert_seq(s@, i as int, v@));
    }
    from_vec(out)
}

/// The first `i` codepoints of `s`: everything at offset `i` and beyond is
/// dropped.
pub fn remove(s: &Str, i: usize) -> (r: Str)
    requires
        i <= s@.len(),
    ensures
        r@ == s@.take(i as int),
{
    let r = sub_str(s, 0, i);
    proof {
        assert(r@ =~= s@.take(i as int));
    }
    r
}

/// `s` with the half-open codepoint range `[i, i + count)` deleted.
pub fn removeAt(s: &Str, i: usize, count: usize) -> (r: Str)
    requires
        i + count <= s@.len(),
    ensures
        r@ == remove_at_seq(s@, i as int, count as int),
{
    let n = length(s);
    let mut out: Vec<char> = Vec::new();
    push_range(&mut out, s, 0, i);
    push_range(&mut out, s, i + count, n);
    proof {
        assert(out@ =~= remove_at_seq(s@, i as int, count as int));
    }
    from_vec(out)
}

/// The codepoints of `s` from offset `i` to the end.
pub fn substring(s: &Str, i: usize) -> (r: Str)
    requires
        i <= s@.len(),
    ensures
        r@ == s@.skip(i as int),
{
    let r = sub_str(s, i, length(s));
    proof {
        assert(r@ =~= s@.skip(i as int));
    }
    r
}

/// The codepoints of `s` in the half-open range `[i, i + count)`.
pub fn substringAt(s: &Str, i: usize, count: usize) -> (r: Str)
    requires
        i + count <= s@.len(),
    ensures
        r@ == s@.subrange(i as int, i + count),
{
    proof {
        crate::handle::lemma_len_fits(s);
    }
    sub_str(s, i, i + count)
}

/// `s` preceded by enough copies of `c` to reach `count` codepoints; `s`
/// unchanged when `count <= length(s)` — padding never truncates.
pub fn padLeft(s: &Str, count: usize, c: char) -> (r: Str)
    ensures
        r@ == pad_left_seq(s@, count as int, c),
{
    let n = length(s);
    if count > n {
        let mut out: Vec<char> = Vec::new();
        let mut i: usize = 0;
        while i < count - n
            invariant
                i <= count - n,
                out@ =~= repeat_char(c, i as nat),
            decreases count - n - i,
        {
            out.push(c);
            i += 1;
        }
        push_range(&mut out, s, 0, n);
        proof {
            assert(out@ =~= pad_left_seq(s@, count as int, c));
        }
        from_vec(out)
    } else {
        let r = sub_str(s, 0, n);
        proof {
            assert(r@ =~= s@);
        }
        r
    }
}

/// `s` followed by enough copies of `c` to reach `count` codepoints; `s`
/// unchanged when `count <= length(s)`.
pub fn padRight(s: &Str, count: usize, c: char) -> (r: Str)
    ensures
        r@ == pad_right_seq(s@, count as int, c),
{
    let n = length(s);
    if count > n {
        let mut out: Vec<char> = Vec::new();
        push_range(&mut out, s, 0, n);
        let mut i: usize = 0;
        while i < count - n
            invariant
                i <= count - n,
                out@ =~= s@ + repeat_char(c, i as nat),
            decreases count - n - i,
        {
            out.push(c);
            i += 1;
        }
        proof {
            assert(out@ =~= pad_right_seq(s@, count as int, c));
        }
        from_vec(out)
    } else {
        let r = sub_str(s, 0, n);
        proof {
            assert(r@ =~= s@);
        }
        r
    }
}

/// `count` copies of `s`, concatenated.
pub fn replicate(count: usize, s: &Str) -> (r: Str)
    ensures
        r@ == repeat_seq(s@, count as nat),
{
    let mut out: Vec<char> = Vec::new();
    let mut i: usize = 0;
    while i < count
        invariant
            i <= count,
            out@ == repeat_seq(s@, i as nat),
        decreases count - i,
    {
        push_all(&mut out, s);
        i += 1;
    }
    from_vec(out)
}

/// The concatenation of the strings of `a`, in order.
pub fn concat(a: &Vec<Str>) -> (r: Str)
    ensures
        r@ == concat_all(a@),
{
    let n = a.len();
    let mut out: Vec<char> = Vec::new();
    let mut i: usize = 0;
    while i < n
        invariant
            n == a@.len(),
            i <= n,
            out@ == concat_all(a@.take(i as int)),
        decreases n - i,
    {
        push_all(&mut out, &a[i]);
        proof {
            assert(a@.take(i + 1).drop_last() =~= a@.take(i as int));
        }
        i += 1;
    }
    proof {
        assert(a@.take(n as int) =~= a@);
    }
    from_vec(out)
}

/// The strings of `a` concatenated with `sep` between consecutive elements,
/// none at the ends.
pub fn join(sep: &Str, a: &Vec<Str>) -> (r: Str)
    ensures
        r@ == join_all(sep@, a@),
{
    let n = a.len();
    let mut out: Vec<char> = Vec::new();
    if n == 0 {
        return from_vec(out);
    }
    push_all(&mut out, &a[0]);
    proof {
        assert(out@ == join_all(sep@, a@.take(1)));
    }
    let mut i: usize = 1;
    while i < n
        invariant
            n == a@.len(),
            1 <= i <= n,
            out@ == join_all(sep@, a@.take(i as int)),
        decreases n - i,
    {
        push_all(&mut out, sep);
        push_all(&mut out, &a[i]);
        proof {
            assert(a@.take(i + 1).drop_last() =~= a@.take(i as int));
        }
        i += 1;
    }
    proof {
        assert(a@.take(n as int) =~= a@);
    }
    from_vec(out)
}

/// Every non-overlapping occurrence of `pat` in `s` replaced by `sub`,
/// scanning left to right; substituted text is never re-scanned.  With an
/// empty `pat`, `sub` is inserted at every codepoint boundary of `s`.
pub fn replace(s: &Str, pat: &Str, sub: &Str) -> (r: Str)
    ensures
        r@ == replace_seq(s@, pat@, sub@),
{
    let n = length(s);
    let m = length(pat);
    let mut out: Vec<char> = Vec::new();
    if m == 0 {
        push_all(&mut out, sub);
        proof {
            assert(s@.skip(0) =~= s@);
        }
        let mut i: usize = 0;
        while i < n
            invariant
                n == s@.len(),
                i <= n,
                out@ + sew_after(s@.skip(i as int), sub@) == interleave_seq(s@, sub@),
            decreases n - i,
        {
            out.push(getCharAt(s, i));
            push_all(&mut out, sub);
            proof {
                assert(s@.skip(i as int).skip(1) =~= s@.skip(i + 1));
                assert(seq![s@.skip(i as int)[0]] =~= seq![s@[i as int]]);
            }
            i += 1;
        }
        proof {
            assert(sew_after(s@.skip(n as int), sub@) =~= Seq::<char>::empty());
        }
        return from_vec(out);
    }
    proof {
        assert(s@.skip(0) =~= s@);
    }
    let mut i: usize = 0;
    while i < n
        invariant
            n == s@.len(),
            m == pat@.len(),
            1 <= m,
            i <= n,
            replace_seq(s@, pat@, sub@) == out@ + replace_seq(s@.skip(i as int), pat@, sub@),
        decreases n - i,
    {
        if m <= n - i && eq_at(s, i, pat) {
            push_all(&mut out, sub);
            proof {
                assert(s@.skip(i as int).subrange(0, m as int) =~= s@.subrange(i as int, i + m));
                assert(s@.skip(i as int).skip(m as int) =~= s@.skip(i + m));
            }
            i += m;
        } else {
            out.push(getCharAt(s, i));
            proof {
                if i + m <= n as int {
                    assert(s@.skip(i as int).subrange(0, m as int) =~= s@.subrange(
                        i as int,
                        i + m,
                    ));
                }
                assert(s@.skip(i as int).skip(1) =~= s@.skip(i + 1));
                assert(seq![s@.skip(i as int)[0]] =~= seq![s@[i as int]]);
            }
            i += 1;
        }
    }
    proof {
        assert(s@.skip(n as int) =~= Seq::<char>::empty());
    }
    from_vec(out)
}

} // verus!

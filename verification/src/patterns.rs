//! Searching, splitting and replacing with a string pattern, on the
//! characters of a text.

use vstd::prelude::*;

use crate::text::{chars_of, occurs_at, string_of};

verus! {

/// The first position at or after `from` where `n` occurs in `h`.
pub open spec fn find_from_spec(h: Seq<char>, n: Seq<char>, from: int) -> Option<int>
    decreases h.len() - from,
{
    if from < 0 || from + n.len() > h.len() {
        None
    } else if n.len() == 0 || occurs_at(h, n, from) {
        Some(from)
    } else {
        find_from_spec(h, n, from + 1)
    }
}

/// The last position below `k` where `n` occurs in `h`.
pub open spec fn rfind_below(h: Seq<char>, n: Seq<char>, k: int) -> Option<int>
    decreases k,
{
    if k <= 0 {
        None
    } else if occurs_at(h, n, k - 1) {
        Some(k - 1)
    } else {
        rfind_below(h, n, k - 1)
    }
}

/// `str::rfind` with a string pattern: the last position where `n` occurs.
pub open spec fn rfind_spec(h: Seq<char>, n: Seq<char>) -> Option<int> {
    rfind_below(h, n, h.len() - n.len() + 1)
}

/// `str::split` with a string pattern, from position `start` on: the pieces
/// between the matches found from left to right.
pub open spec fn split_pat_from(s: Seq<char>, p: Seq<char>, start: int) -> Seq<Seq<char>>
    decreases s.len() - start,
{
    match find_from_spec(s, p, start) {
        Some(i) => if p.len() > 0 && start <= i && i + p.len() <= s.len() {
            seq![s.subrange(start, i)] + split_pat_from(s, p, i + p.len())
        } else {
            seq![s.subrange(start, s.len() as int)]
        },
        None => seq![s.subrange(start, s.len() as int)],
    }
}

/// `str::split` with a string pattern.
pub open spec fn split_pat(s: Seq<char>, p: Seq<char>) -> Seq<Seq<char>> {
    split_pat_from(s, p, 0)
}

/// `str::replace` from position `start` on: every match found from left to
/// right replaced by `t`.
pub open spec fn replace_from(s: Seq<char>, f: Seq<char>, t: Seq<char>, start: int) -> Seq<char>
    decreases s.len() - start,
{
    match find_from_spec(s, f, start) {
        Some(i) => if f.len() > 0 && start <= i && i + f.len() <= s.len() {
            s.subrange(start, i) + t + replace_from(s, f, t, i + f.len())
        } else {
            s.subrange(start, s.len() as int)
        },
        None => s.subrange(start, s.len() as int),
    }
}

/// `str::replace`: every match of `f`, found from left to right, replaced by
/// `t`.
pub open spec fn replace_spec(s: Seq<char>, f: Seq<char>, t: Seq<char>) -> Seq<char> {
    replace_from(s, f, t, 0)
}

/// Whether `n` occurs in `h` at position `i`.
pub fn match_at(h: &Vec<char>, n: &Vec<char>, i: usize) -> (r: bool)
    requires
        i + n@.len() <= h.len(),
    ensures
        r == occurs_at(h@, n@, i as int),
{
    let mut j: usize = 0;
    while j < n.len()
        invariant
            i + n@.len() <= h.len(),
            j <= n@.len(),
            forall|k: int| 0 <= k < j ==> h@[i + k] == n@[k],
        decreases n@.len() - j,
    {
        if h[i + j] != n[j] {
            assert(h@.subrange(i as int, i + n@.len())[j as int] != n@[j as int]);
            return false;
        }
        j = j + 1;
    }
    assert(h@.subrange(i as int, i + n@.len()) =~= n@);
    true
}

/// A match found by `find_from_spec` lies inside the text, at or after
/// `from`.
pub proof fn lemma_find_from_bounds(h: Seq<char>, n: Seq<char>, from: int)
    ensures
        find_from_spec(h, n, from) matches Some(i) ==> from <= i && i + n.len() <= h.len() && occurs_at(h, n, i),
    decreases h.len() - from,
{
    if from < 0 || from + n.len() > h.len() {
    } else if n.len() == 0 {
        assert(h.subrange(from, from + n.len()) =~= n);
    } else if occurs_at(h, n, from) {
    } else {
        lemma_find_from_bounds(h, n, from + 1);
    }
}

/// The first position at or after `from` where `n` occurs in `h`.
pub fn find_from(h: &Vec<char>, n: &Vec<char>, from: usize) -> (r: Option<usize>)
    ensures
        match r {
            Some(i) => find_from_spec(h@, n@, from as int) == Some(i as int) && from <= i && i + n@.len()
                <= h.len(),
            None => find_from_spec(h@, n@, from as int) is None,
        },
{
    if n.len() > h.len() {
        return None;
    }
    let last: usize = h.len() - n.len();
    if from > last {
        return None;
    }
    let mut i: usize = from;
    loop
        invariant
            last + n@.len() == h.len(),
            from <= i <= last,
            find_from_spec(h@, n@, from as int) == find_from_spec(h@, n@, i as int),
        decreases last - i,
    {
        if n.len() == 0 {
            return Some(i);
        }
        if match_at(h, n, i) {
            return Some(i);
        }
        if i == last {
            assert(find_from_spec(h@, n@, i + 1) is None);
            return None;
        }
        i = i + 1;
    }
}

/// The last position where `n` occurs in `h`.
pub fn rfind(h: &Vec<char>, n: &Vec<char>) -> (r: Option<usize>)
    ensures
        match r {
            Some(i) => rfind_spec(h@, n@) == Some(i as int) && i + n@.len() <= h.len(),
            None => rfind_spec(h@, n@) is None,
        },
{
    if n.len() > h.len() {
        proof {
            assert(h@.len() - n@.len() + 1 <= 0);
        }
        return None;
    }
    let mut k: usize = h.len() - n.len();
    loop
        invariant
            k + n@.len() <= h.len(),
            rfind_spec(h@, n@) == rfind_below(h@, n@, k + 1),
        decreases k,
    {
        if match_at(h, n, k) {
            return Some(k);
        }
        if k == 0 {
            assert(rfind_below(h@, n@, 0) is None);
            return None;
        }
        k = k - 1;
    }
}

/// Splits a text at every match of a non-empty pattern (`str::split`).
pub fn split_str(s: &str, p: &str) -> (r: Vec<String>)
    requires
        p@.len() > 0,
    ensures
        r.deep_view() == split_pat(s@, p@),
{
    let cs = chars_of(s);
    let ps = chars_of(p);
    let mut out: Vec<String> = Vec::new();
    let mut start: usize = 0;
    loop
        invariant
            cs@ == s@,
            ps@ == p@,
            ps@.len() > 0,
            start <= cs.len(),
            split_pat(cs@, ps@) == out.deep_view() + split_pat_from(cs@, ps@, start as int),
        decreases cs@.len() - start,
    {
        let ghost before = out.deep_view();
        match find_from(&cs, &ps, start) {
            Some(i) => {
                let piece = crate::text::substring(&cs, start, i);
                out.push(piece);
                assert(out.deep_view() =~= before.push(cs@.subrange(start as int, i as int)));
                assert(split_pat_from(cs@, ps@, start as int) == seq![cs@.subrange(start as int, i as int)]
                    + split_pat_from(cs@, ps@, i + ps@.len()));
                assert(before.push(cs@.subrange(start as int, i as int)) + split_pat_from(cs@, ps@, i + ps@.len())
                    =~= before + (seq![cs@.subrange(start as int, i as int)] + split_pat_from(
                    cs@,
                    ps@,
                    i + ps@.len(),
                )));
                start = i + ps.len();
            },
            None => {
                let piece = crate::text::substring(&cs, start, cs.len());
                out.push(piece);
                assert(out.deep_view() =~= before + seq![cs@.subrange(start as int, cs@.len() as int)]);
                return out;
            },
        }
    }
}

/// Replaces every match of a non-empty pattern, found from left to right
/// (`str::replace`).
pub fn replace_str(s: &str, f: &str, t: &str) -> (r: String)
    requires
        f@.len() > 0,
    ensures
        r@ == replace_spec(s@, f@, t@),
{
    let cs = chars_of(s);
    let fs = chars_of(f);
    let ts = chars_of(t);
    let mut out: Vec<char> = Vec::new();
    let mut start: usize = 0;
    loop
        invariant
            cs@ == s@,
            fs@ == f@,
            ts@ == t@,
            fs@.len() > 0,
            start <= cs.len(),
            replace_spec(cs@, fs@, ts@) == out@ + replace_from(cs@, fs@, ts@, start as int),
        decreases cs@.len() - start,
    {
        let ghost before = out@;
        match find_from(&cs, &fs, start) {
            Some(i) => {
                let mut k: usize = start;
                while k < i
                    invariant
                        start <= k <= i <= cs@.len(),
                        out@ == before + cs@.subrange(start as int, k as int),
                    decreases i - k,
                {
                    out.push(cs[k]);
                    k = k + 1;
                    assert(out@ =~= before + cs@.subrange(start as int, k as int));
                }
                let mut j: usize = 0;
                while j < ts.len()
                    invariant
                        j <= ts@.len(),
                        out@ == before + cs@.subrange(start as int, i as int) + ts@.take(j as int),
                    decreases ts@.len() - j,
                {
                    out.push(ts[j]);
                    j = j + 1;
                    assert(out@ =~= before + cs@.subrange(start as int, i as int) + ts@.take(j as int));
                }
                assert(ts@.take(ts@.len() as int) =~= ts@);
                assert(before + (cs@.subrange(start as int, i as int) + ts@ + replace_from(cs@, fs@, ts@, i + fs@.len()))
                    =~= before + cs@.subrange(start as int, i as int) + ts@ + replace_from(cs@, fs@, ts@, i + fs@.len()));
                start = i + fs.len();
            },
            None => {
                let mut k: usize = start;
                while k < cs.len()
                    invariant
                        start <= k <= cs@.len(),
                        out@ == before + cs@.subrange(start as int, k as int),
                    decreases cs@.len() - k,
                {
                    out.push(cs[k]);
                    k = k + 1;
                    assert(out@ =~= before + cs@.subrange(start as int, k as int));
                }
                return string_of(&out);
            },
        }
    }
}

} // verus!

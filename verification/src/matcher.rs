//! Glob matching over hierarchical keys.
//!
//! A key and a pattern are split on `/` into segment sequences; empty
//! segments are kept, never merged. The pattern is matched segment by
//! segment, left to right: a literal segment matches only an identical key
//! segment, `*` matches exactly one key segment of any content, and `**`
//! matches zero or more consecutive key segments.

use vstd::prelude::*;
use vstd::slice::slice_to_vec;
use vstd::string::StrSliceExecFns;

verus! {

/// The index of the first `/` in `s`, or a negative number when `s` holds
/// none.
pub open spec fn first_slash(s: Seq<char>) -> int
    decreases s.len(),
{
    if s.len() == 0 {
        -1
    } else if s[0] == '/' {
        0
    } else {
        let r = first_slash(s.drop_first());
        if r < 0 {
            -1
        } else {
            r + 1
        }
    }
}

/// The segments of `s`, split on `/` in order, empty segments kept. A string
/// without a `/` is a single segment; in particular the empty string is one
/// empty segment.
pub open spec fn spec_split(s: Seq<char>) -> Seq<Seq<char>>
    decreases s.len(),
    via spec_split_decreases
{
    let i = first_slash(s);
    if i < 0 {
        seq![s]
    } else {
        seq![s.take(i)] + spec_split(s.skip(i + 1))
    }
}

#[via_fn]
proof fn spec_split_decreases(s: Seq<char>) {
    lemma_first_slash_bounds(s);
}

/// `first_slash` stays within the bounds of its argument.
pub proof fn lemma_first_slash_bounds(s: Seq<char>)
    ensures
        -1 <= first_slash(s) < s.len(),
        first_slash(s) >= 0 ==> s[first_slash(s)] == '/',
    decreases s.len(),
{
    if s.len() > 0 && s[0] != '/' {
        lemma_first_slash_bounds(s.drop_first());
    }
}

/// The one-segment wildcard.
pub open spec fn star_seg() -> Seq<char> {
    seq!['*']
}

/// The any-number-of-segments wildcard.
pub open spec fn double_star_seg() -> Seq<char> {
    seq!['*', '*']
}

/// Whether the key segments `ks` match the pattern segments `ps`, left to
/// right: `**` consumes zero or more key segments, `*` consumes exactly one,
/// and any other pattern segment must equal the key segment it consumes.
pub open spec fn segs_match(ks: Seq<Seq<char>>, ps: Seq<Seq<char>>) -> bool
    decreases ks.len() + ps.len(),
{
    if ps.len() == 0 {
        ks.len() == 0
    } else if ps[0] == double_star_seg() {
        segs_match(ks, ps.drop_first()) || (ks.len() > 0 && segs_match(ks.drop_first(), ps))
    } else if ks.len() == 0 {
        false
    } else {
        (ps[0] == star_seg() || ks[0] == ps[0]) && segs_match(ks.drop_first(), ps.drop_first())
    }
}

/// Whether the key matches the glob pattern.
pub open spec fn spec_matches(key: Seq<char>, pattern: Seq<char>) -> bool {
    segs_match(spec_split(key), spec_split(pattern))
}

/// Collect the characters of a string into a vector.
fn to_char_vec(s: &str) -> (r: Vec<char>)
    ensures
        r@ == s@,
{
    let n = s.unicode_len();
    let mut r: Vec<char> = Vec::new();
    let mut i: usize = 0;
    while i < n
        invariant
            n == s@.len(),
            i <= n,
            r@ == s@.subrange(0, i as int),
        decreases n - i,
    {
        r.push(s.get_char(i));
        i = i + 1;
        assert(r@ =~= s@.subrange(0, i as int));
    }
    assert(r@ =~= s@);
    r
}

/// The index of the first `/` in `s`, if any.
fn find_slash(s: &[char]) -> (r: Option<usize>)
    ensures
        r matches Some(i) ==> first_slash(s@) == i && i < s@.len(),
        r is None ==> first_slash(s@) < 0,
{
    let mut i: usize = 0;
    while i < s.len()
        invariant
            i <= s@.len(),
            forall|j: int| 0 <= j < i ==> s@[j] != '/',
        decreases s@.len() - i,
    {
        if s[i] == '/' {
            proof {
                lemma_first_slash_at(s@, i as int);
            }
            return Some(i);
        }
        i = i + 1;
    }
    proof {
        lemma_first_slash_none(s@);
    }
    None
}

/// When position `i` holds the first `/`, `first_slash` returns `i`.
proof fn lemma_first_slash_at(s: Seq<char>, i: int)
    requires
        0 <= i < s.len(),
        s[i] == '/',
        forall|j: int| 0 <= j < i ==> s[j] != '/',
    ensures
        first_slash(s) == i,
    decreases s.len(),
{
    if i > 0 {
        lemma_first_slash_at(s.drop_first(), i - 1);
    }
}

/// When no position holds a `/`, `first_slash` is negative.
proof fn lemma_first_slash_none(s: Seq<char>)
    requires
        forall|j: int| 0 <= j < s.len() ==> s[j] != '/',
    ensures
        first_slash(s) < 0,
    decreases s.len(),
{
    if s.len() > 0 {
        lemma_first_slash_none(s.drop_first());
    }
}

/// The views of the segments in `v`.
pub open spec fn seg_views(v: Seq<Vec<char>>) -> Seq<Seq<char>> {
    v.map(|i: int, t: Vec<char>| t@)
}

/// Split a character slice on `/` into its segments.
fn split_segments(s: &[char]) -> (r: Vec<Vec<char>>)
    ensures
        seg_views(r@) == spec_split(s@),
    decreases s@.len(),
{
    match find_slash(s) {
        None => {
            let mut r: Vec<Vec<char>> = Vec::new();
            r.push(slice_to_vec(s));
            assert(seg_views(r@) =~= spec_split(s@));
            r
        },
        Some(i) => {
            let n = s.len();
            assert(i < n);
            let head = slice_to_vec(&s[0..i]);
            let mut rest = split_segments(&s[i + 1..n]);
            let mut r: Vec<Vec<char>> = Vec::new();
            r.push(head);
            r.append(&mut rest);
            assert(head@ =~= s@.take(first_slash(s@)));
            assert(seg_views(r@) =~= spec_split(s@));
            r
        },
    }
}

/// Whether two character segments are equal.
fn seg_eq(a: &[char], b: &[char]) -> (r: bool)
    ensures
        r <==> a@ == b@,
{
    if a.len() != b.len() {
        assert(a@ !~= b@);
        return false;
    }
    let mut i: usize = 0;
    while i < a.len()
        invariant
            a@.len() == b@.len(),
            i <= a@.len(),
            forall|j: int| 0 <= j < i ==> a@[j] == b@[j],
        decreases a@.len() - i,
    {
        if a[i] != b[i] {
            assert(a@ !~= b@);
            return false;
        }
        i = i + 1;
    }
    assert(a@ =~= b@);
    true
}

/// Whether the segment is the one-segment wildcard `*`.
fn is_star(seg: &[char]) -> (r: bool)
    ensures
        r <==> seg@ == star_seg(),
{
    let r = seg.len() == 1 && seg[0] == '*';
    proof {
        if r {
            assert(seg@ =~= star_seg());
        } else {
            assert(seg@ !~= star_seg());
        }
    }
    r
}

/// Whether the segment is the any-number-of-segments wildcard `**`.
fn is_double_star(seg: &[char]) -> (r: bool)
    ensures
        r <==> seg@ == double_star_seg(),
{
    let r = seg.len() == 2 && seg[0] == '*' && seg[1] == '*';
    proof {
        if r {
            assert(seg@ =~= double_star_seg());
        } else {
            assert(seg@ !~= double_star_seg());
        }
    }
    r
}

/// Match key segments against pattern segments, backtracking on `**`.
fn match_segments(ks: &[Vec<char>], ps: &[Vec<char>]) -> (r: bool)
    ensures
        r == segs_match(seg_views(ks@), seg_views(ps@)),
    decreases ks@.len() + ps@.len(),
{
    if ps.len() == 0 {
        proof {
            assert(seg_views(ps@).len() == 0);
        }
        ks.len() == 0
    } else if is_double_star(ps[0].as_slice()) {
        assert(seg_views(ps@)[0] == double_star_seg());
        assert(seg_views(ps@.subrange(1, ps@.len() as int)) =~= seg_views(ps@).drop_first());
        if match_segments(ks, &ps[1..ps.len()]) {
            true
        } else if ks.len() > 0 {
            assert(seg_views(ks@.subrange(1, ks@.len() as int)) =~= seg_views(ks@).drop_first());
            match_segments(&ks[1..ks.len()], ps)
        } else {
            false
        }
    } else if ks.len() == 0 {
        assert(seg_views(ps@)[0] != double_star_seg());
        assert(seg_views(ks@).len() == 0);
        false
    } else {
        assert(seg_views(ps@)[0] != double_star_seg());
        let first_ok = is_star(ps[0].as_slice()) || seg_eq(ks[0].as_slice(), ps[0].as_slice());
        if first_ok {
            assert(seg_views(ks@.subrange(1, ks@.len() as int)) =~= seg_views(ks@).drop_first());
            assert(seg_views(ps@.subrange(1, ps@.len() as int)) =~= seg_views(ps@).drop_first());
            match_segments(&ks[1..ks.len()], &ps[1..ps.len()])
        } else {
            false
        }
    }
}

/// Whether each key segment of `key_parts` matches the corresponding
/// pattern segment of `pattern_parts`, with `*` and `**` wildcards.
pub fn matches_parts(key_parts: &[&str], pattern_parts: &[&str]) -> (r: bool)
    ensures
        r == segs_match(
            key_parts@.map(|i: int, t: &str| t@),
            pattern_parts@.map(|i: int, t: &str| t@),
        ),
{
    let ks = parts_to_segments(key_parts);
    let ps = parts_to_segments(pattern_parts);
    let r = match_segments(ks.as_slice(), ps.as_slice());
    assert(seg_views(ks@) =~= key_parts@.map(|i: int, t: &str| t@));
    assert(seg_views(ps@) =~= pattern_parts@.map(|i: int, t: &str| t@));
    r
}

/// Collect string segments into character segments.
fn parts_to_segments(parts: &[&str]) -> (r: Vec<Vec<char>>)
    ensures
        seg_views(r@) == parts@.map(|i: int, t: &str| t@),
{
    let mut r: Vec<Vec<char>> = Vec::new();
    let mut i: usize = 0;
    while i < parts.len()
        invariant
            i <= parts@.len(),
            r@.len() == i,
            forall|k: int| 0 <= k < i ==> r@[k]@ == parts@[k]@,
        decreases parts@.len() - i,
    {
        r.push(to_char_vec(parts[i]));
        i = i + 1;
    }
    assert(seg_views(r@) =~~= parts@.map(|j: int, t: &str| t@));
    r
}

/// Whether the key matches the glob pattern, both split on `/`.
pub fn matches_wildcard(key: &str, pattern: &str) -> (r: bool)
    ensures
        r == spec_matches(key@, pattern@),
{
    let kc = to_char_vec(key);
    let pc = to_char_vec(pattern);
    let ks = split_segments(kc.as_slice());
    let ps = split_segments(pc.as_slice());
    match_segments(ks.as_slice(), ps.as_slice())
}

} // verus!

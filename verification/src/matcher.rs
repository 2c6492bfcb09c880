//! Subject filter matching.
//!
//! A subject and a filter are both dot-delimited sequences of segments.
//! A filter segment may be a literal token, the single-segment wildcard
//! `*`, or the multi-segment wildcard `>`, which (in any position the
//! walk reaches) matches every remaining subject segment.

use vstd::prelude::*;

verus! {

/// Split a character sequence on `.` into its segments.
/// An empty sequence has one empty segment, and consecutive dots
/// produce empty segments, as `str::split` does.
pub open spec fn split_on_dot(s: Seq<char>) -> Seq<Seq<char>>
    decreases s.len(),
{
    if s.len() == 0 {
        seq![Seq::<char>::empty()]
    } else if s[0] == '.' {
        seq![Seq::<char>::empty()] + split_on_dot(s.drop_first())
    } else {
        let rest = split_on_dot(s.drop_first());
        seq![seq![s[0]] + rest[0]] + rest.drop_first()
    }
}

/// Whether a filter, as a segment sequence, matches a subject, as a
/// segment sequence: a filter longer than the subject never matches;
/// a `>` segment matches all remaining subject segments; a `*` segment
/// or an equal literal matches one subject segment; with no `>`, the
/// walk must consume the whole subject.
pub open spec fn seg_matches(f: Seq<Seq<char>>, s: Seq<Seq<char>>) -> bool
    decreases f.len(),
{
    if f.len() > s.len() {
        false
    } else if f.len() == 0 {
        s.len() == 0
    } else if f[0] == seq!['>'] {
        true
    } else if f[0] == seq!['*'] || f[0] == s[0] {
        seg_matches(f.drop_first(), s.drop_first())
    } else {
        false
    }
}

/// Whether `filter` matches `subject`, both taken as dot-delimited strings.
pub open spec fn spec_matches(filter: Seq<char>, subject: Seq<char>) -> bool {
    seg_matches(split_on_dot(filter), split_on_dot(subject))
}

/// A sequence of characters with no dot: one whole segment.
pub open spec fn no_dot(s: Seq<char>) -> bool {
    forall|i: int| 0 <= i < s.len() ==> s[i] != '.'
}

/// Splitting always yields at least one segment.
proof fn lemma_split_len(s: Seq<char>)
    ensures
        split_on_dot(s).len() >= 1,
    decreases s.len(),
{
    if s.len() == 0 {
    } else if s[0] == '.' {
        lemma_split_len(s.drop_first());
    } else {
        lemma_split_len(s.drop_first());
    }
}

/// A dotless sequence is its own single segment.
proof fn lemma_split_no_dot(s: Seq<char>)
    requires
        no_dot(s),
    ensures
        split_on_dot(s) == seq![s],
    decreases s.len(),
{
    if s.len() == 0 {
        assert(s =~= Seq::<char>::empty());
        assert(split_on_dot(s) =~= seq![s]);
    } else {
        assert(s[0] != '.');
        assert(no_dot(s.drop_first())) by {
            assert(forall|i: int| 0 <= i < s.drop_first().len() ==> s.drop_first()[i] == s[i + 1]);
        }
        lemma_split_no_dot(s.drop_first());
        let rest = split_on_dot(s.drop_first());
        assert(rest == seq![s.drop_first()]);
        assert(seq![s[0]] + rest[0] =~= s);
        assert(rest.drop_first() =~= Seq::<Seq<char>>::empty());
        assert(split_on_dot(s) =~= seq![s]);
    }
}

/// Splitting a dotless segment, a dot, and a remainder yields that
/// segment followed by the split of the remainder.
proof fn lemma_split_prepend_seg(x: Seq<char>, y: Seq<char>)
    requires
        no_dot(x),
    ensures
        split_on_dot(x + seq!['.'] + y) == seq![x] + split_on_dot(y),
    decreases x.len(),
{
    let w = x + seq!['.'] + y;
    if x.len() == 0 {
        assert(w[0] == '.');
        assert(w.drop_first() =~= y);
        assert(x =~= Seq::<char>::empty());
        assert(split_on_dot(w) =~= seq![x] + split_on_dot(y));
    } else {
        assert(w[0] == x[0]);
        assert(x[0] != '.');
        assert(no_dot(x.drop_first())) by {
            assert(forall|i: int| 0 <= i < x.drop_first().len() ==> x.drop_first()[i] == x[i + 1]);
        }
        lemma_split_prepend_seg(x.drop_first(), y);
        assert(w.drop_first() =~= x.drop_first() + seq!['.'] + y);
        let rest = split_on_dot(w.drop_first());
        assert(rest == seq![x.drop_first()] + split_on_dot(y));
        assert(rest[0] == x.drop_first());
        assert(seq![w[0]] + rest[0] =~= x);
        assert(rest.drop_first() =~= split_on_dot(y));
        assert(split_on_dot(w) =~= seq![x] + split_on_dot(y));
    }
}

/// The catch-all filter: a filter that is the single multi-segment
/// wildcard segment `>` matches every non-empty subject.
pub proof fn lemma_catch_all_matches(subject: Seq<char>)
    requires
        subject.len() > 0,
    ensures
        spec_matches(seq!['>'], subject),
{
    assert(no_dot(seq!['>']));
    lemma_split_no_dot(seq!['>']);
    lemma_split_len(subject);
    let f = split_on_dot(seq!['>']);
    assert(f == seq![seq!['>']]);
    assert(f[0] == seq!['>']);
    assert(seg_matches(f, split_on_dot(subject)));
}

/// The single-segment wildcard consumes exactly one subject segment:
/// prepending `*` to a filter and any one segment — whatever it holds —
/// to a subject leaves the match outcome unchanged.
pub proof fn lemma_star_consumes_one_segment(f: Seq<Seq<char>>, s: Seq<Seq<char>>, seg: Seq<char>)
    ensures
        seg_matches(seq![seq!['*']] + f, seq![seg] + s) == seg_matches(f, s),
{
    let fw = seq![seq!['*']] + f;
    let sw = seq![seg] + s;
    assert(fw[0] == seq!['*']);
    assert(sw[0] == seg);
    assert(seq!['*'][0] == '*' && seq!['>'][0] == '>');
    assert(fw[0] != seq!['>']);
    if fw.len() > sw.len() {
        assert(!seg_matches(fw, sw));
        assert(f.len() > s.len());
    } else {
        assert(fw.drop_first() =~= f);
        assert(sw.drop_first() =~= s);
        assert(seg_matches(fw, sw) == seg_matches(f, s));
    }
}

/// The multi-segment wildcard short-circuits: a filter whose next segment
/// is `>` matches whenever the filter has no more segments than the
/// subject, whatever segments remain on either side.
pub proof fn lemma_multi_wildcard_short_circuits(f: Seq<Seq<char>>, s: Seq<Seq<char>>)
    requires
        f.len() >= 1,
        f[0] == seq!['>'],
        f.len() <= s.len(),
    ensures
        seg_matches(f, s),
{
}

/// A filter with more segments than the subject never matches, even when
/// a `>` segment stands where the walk would reach it.
pub proof fn lemma_longer_filter_never_matches(f: Seq<Seq<char>>, s: Seq<Seq<char>>)
    requires
        f.len() > s.len(),
    ensures
        !seg_matches(f, s),
{
}

/// Without the multi-segment wildcard a match is exact in length: a filter
/// that matches and holds no `>` segment has exactly as many segments as
/// the subject.
pub proof fn lemma_match_without_multi_wildcard_is_exact(f: Seq<Seq<char>>, s: Seq<Seq<char>>)
    requires
        seg_matches(f, s),
        forall|i: int| 0 <= i < f.len() ==> f[i] != seq!['>'],
    ensures
        f.len() == s.len(),
    decreases f.len(),
{
    if f.len() == 0 {
    } else {
        assert(f[0] != seq!['>']);
        assert(forall|i: int| 0 <= i < f.drop_first().len() ==> f.drop_first()[i] == f[i + 1]);
        lemma_match_without_multi_wildcard_is_exact(f.drop_first(), s.drop_first());
    }
}

/// The views of a sequence of character vectors.
spec fn views_of(r: Seq<Vec<char>>) -> Seq<Seq<char>> {
    r.map_values(|v: Vec<char>| v@)
}

/// Collect the characters of a string slice into a vector.
fn chars_of(s: &str) -> (v: Vec<char>)
    ensures
        v@ == s@,
{
    let n = s.unicode_len();
    let mut v: Vec<char> = Vec::new();
    let mut i: usize = 0;
    while i < n
        invariant
            i <= n,
            n == s@.len(),
            v@ == s@.take(i as int),
        decreases n - i,
    {
        v.push(s.get_char(i));
        proof {
            assert(s@.take(i as int).push(s@[i as int]) =~= s@.take(i + 1));
        }
        i = i + 1;
    }
    proof {
        assert(s@.take(n as int) =~= s@);
    }
    v
}

/// Split a character vector on `.` into its segments.
fn split_segments(s: &Vec<char>) -> (r: Vec<Vec<char>>)
    ensures
        views_of(r@) == split_on_dot(s@),
{
    let mut r: Vec<Vec<char>> = Vec::new();
    let mut cur: Vec<char> = Vec::new();
    let mut i: usize = 0;
    proof {
        assert(Seq::<char>::empty() + s@.skip(0) =~= s@);
        assert(views_of(Seq::<Vec<char>>::empty()) + split_on_dot(s@) =~= split_on_dot(s@));
    }
    while i < s.len()
        invariant
            i <= s@.len(),
            no_dot(cur@),
            split_on_dot(s@) == views_of(r@) + split_on_dot(cur@ + s@.skip(i as int)),
        decreases s@.len() - i,
    {
        let c = s[i];
        if c == '.' {
            proof {
                assert(cur@ + s@.skip(i as int) =~= cur@ + seq!['.'] + s@.skip(i + 1));
                lemma_split_prepend_seg(cur@, s@.skip(i + 1));
                assert(views_of(r@.push(cur)) =~= views_of(r@).push(cur@));
                assert(views_of(r@) + (seq![cur@] + split_on_dot(s@.skip(i + 1)))
                    =~= views_of(r@.push(cur)) + split_on_dot(s@.skip(i + 1)));
            }
            r.push(cur);
            cur = Vec::new();
            proof {
                assert(Seq::<char>::empty() + s@.skip(i + 1) =~= s@.skip(i + 1));
            }
        } else {
            proof {
                assert(cur@.push(c) + s@.skip(i + 1) =~= cur@ + s@.skip(i as int));
                assert(forall|j: int| 0 <= j < cur@.push(c).len() ==> cur@.push(c)[j] != '.');
            }
            cur.push(c);
        }
        i = i + 1;
    }
    proof {
        assert(cur@ + s@.skip(s@.len() as int) =~= cur@);
        lemma_split_no_dot(cur@);
        assert(views_of(r@.push(cur)) =~= views_of(r@).push(cur@));
        assert(views_of(r@) + seq![cur@] =~= views_of(r@).push(cur@));
    }
    r.push(cur);
    r
}

/// Whether a segment is the one-character segment `c`.
fn seg_is(seg: &Vec<char>, c: char) -> (r: bool)
    ensures
        r == (seg@ == seq![c]),
{
    let r = seg.len() == 1 && seg[0] == c;
    proof {
        if r {
            assert(seg@ =~= seq![c]);
        }
        if seg@ == seq![c] {
            assert(seg@.len() == 1);
            assert(seg@[0] == c);
        }
    }
    r
}

/// Whether two segments hold the same characters.
fn seg_eq(a: &Vec<char>, b: &Vec<char>) -> (r: bool)
    ensures
        r == (a@ == b@),
{
    if a.len() != b.len() {
        return false;
    }
    let mut i: usize = 0;
    while i < a.len()
        invariant
            i <= a@.len(),
            a@.len() == b@.len(),
            forall|j: int| 0 <= j < i ==> a@[j] == b@[j],
        decreases a@.len() - i,
    {
        if a[i] != b[i] {
            return false;
        }
        i = i + 1;
    }
    proof {
        assert(a@ =~= b@);
    }
    true
}

/// Whether `filter` matches `subject`: split both on `.` and walk the
/// segments, honouring the `*` and `>` wildcards.
pub fn matches_filter(filter: &str, subject: &str) -> (r: bool)
    ensures
        r == spec_matches(filter@, subject@),
{
    let f = chars_of(filter);
    let s = chars_of(subject);
    let fs = split_segments(&f);
    let ss = split_segments(&s);
    let ghost fv = views_of(fs@);
    let ghost sv = views_of(ss@);
    if fs.len() > ss.len() {
        return false;
    }
    proof {
        assert(fv.skip(0) =~= fv);
        assert(sv.skip(0) =~= sv);
    }
    let mut i: usize = 0;
    while i < fs.len()
        invariant
            i <= fs@.len() <= ss@.len(),
            fv == views_of(fs@),
            sv == views_of(ss@),
            fv.len() == fs@.len(),
            sv.len() == ss@.len(),
            spec_matches(filter@, subject@) == seg_matches(fv.skip(i as int), sv.skip(i as int)),
        decreases fs@.len() - i,
    {
        let ghost fr = fv.skip(i as int);
        let ghost sr = sv.skip(i as int);
        proof {
            assert(fr.len() == fv.len() - i);
            assert(fr[0] == fv[i as int]);
            assert(sr[0] == sv[i as int]);
        }
        if seg_is(&fs[i], '>') {
            proof {
                assert(fr[0] == seq!['>']);
                assert(fr.len() >= 1 && fr.len() <= sr.len());
                assert(seg_matches(fr, sr));
            }
            return true;
        }
        if seg_is(&fs[i], '*') || seg_eq(&fs[i], &ss[i]) {
            proof {
                assert(fr.drop_first() =~= fv.skip(i + 1));
                assert(sr.drop_first() =~= sv.skip(i + 1));
                assert(seg_matches(fr, sr) == seg_matches(fr.drop_first(), sr.drop_first()));
            }
            i = i + 1;
        } else {
            proof {
                assert(fr[0] != seq!['>'] && fr[0] != seq!['*'] && fr[0] != sr[0]);
                assert(!seg_matches(fr, sr));
            }
            return false;
        }
    }
    proof {
        assert(fv.skip(i as int).len() == 0);
        assert(seg_matches(fv.skip(i as int), sv.skip(i as int)) == (sv.len() == i));
    }
    fs.len() == ss.len()
}

} // verus!

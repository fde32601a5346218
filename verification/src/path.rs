//! Path patterns and the matcher.
//!
//! A pattern string such as `/users/:id` or `/static/*` is compiled into a
//! sequence of segments. A literal segment matches a candidate segment
//! exactly, a parameter segment (`:name`) matches any single non-empty
//! candidate segment, and a trailing wildcard (`*`) matches the whole
//! remainder of the candidate path, of any depth including zero.

use vstd::prelude::*;
use vstd::string::StrSliceExecFns;

verus! {

/// Error returned when a pattern string cannot be compiled.
#[derive(Clone, Copy, Debug, PartialEq, Eq, Structural)]
pub enum Error {
    InvalidPath,
}

/// One compiled segment of a pattern.
#[derive(Clone, Debug)]
pub enum Segment {
    /// Matches exactly this text.
    Literal(Vec<char>),
    /// `:name`: matches any single non-empty segment.
    Param,
    /// `*`: matches the remainder of the path, zero or more segments.
    Wildcard,
}

/// Mathematical model of a compiled segment.
#[verifier::ext_equal]
pub enum SegView {
    Literal(Seq<char>),
    Param,
    Wildcard,
}

impl View for Segment {
    type V = SegView;

    open spec fn view(&self) -> SegView {
        match self {
            Segment::Literal(l) => SegView::Literal(l@),
            Segment::Param => SegView::Param,
            Segment::Wildcard => SegView::Wildcard,
        }
    }
}

/// Splits a character sequence at every `/`. The result always has at least
/// one element; separators at the ends produce empty segments, so
/// `split_segments("a//b")` is `["a", "", "b"]` and `split_segments("")` is
/// `[""]`.
pub open spec fn split_segments(s: Seq<char>) -> Seq<Seq<char>>
    decreases s.len(),
{
    if s.len() == 0 {
        seq![Seq::<char>::empty()]
    } else if s[0] == '/' {
        seq![Seq::<char>::empty()] + split_segments(s.skip(1))
    } else {
        let rest = split_segments(s.skip(1));
        seq![seq![s[0]] + rest[0]] + rest.skip(1)
    }
}

/// A split is never empty.
pub proof fn lemma_split_segments_len(s: Seq<char>)
    ensures
        split_segments(s).len() >= 1,
    decreases s.len(),
{
    if s.len() == 0 {
    } else if s[0] == '/' {
    } else {
        lemma_split_segments_len(s.skip(1));
    }
}

/// Prepending separator-free text extends the first segment of a split.
pub proof fn lemma_split_prepend(a: Seq<char>, s: Seq<char>)
    requires
        forall|k: int| 0 <= k < a.len() ==> a[k] != '/',
    ensures
        split_segments(a + s) == seq![a + split_segments(s)[0]] + split_segments(s).skip(1),
    decreases a.len(),
{
    lemma_split_segments_len(s);
    if a.len() == 0 {
        assert(a + s =~= s);
        assert(a + split_segments(s)[0] =~= split_segments(s)[0]);
        assert(seq![a + split_segments(s)[0]] + split_segments(s).skip(1) =~= split_segments(s));
    } else {
        let a1 = a.skip(1);
        assert((a + s).len() > 0 && (a + s)[0] == a[0]);
        assert((a + s).skip(1) =~= a1 + s);
        lemma_split_prepend(a1, s);
        lemma_split_segments_len(a1 + s);
        assert(seq![a[0]] + (a1 + split_segments(s)[0]) =~= a + split_segments(s)[0]);
        assert(split_segments(a1 + s).skip(1) =~= split_segments(s).skip(1));
        assert(split_segments(a + s) =~= seq![a + split_segments(s)[0]]
            + split_segments(s).skip(1));
    }
}

/// A separator-free text splits into just itself.
pub proof fn lemma_split_single(s: Seq<char>)
    requires
        forall|k: int| 0 <= k < s.len() ==> s[k] != '/',
    ensures
        split_segments(s) == seq![s],
{
    lemma_split_prepend(s, Seq::<char>::empty());
    assert(s + Seq::<char>::empty() =~= s);
    assert(s + split_segments(Seq::<char>::empty())[0] =~= s);
    assert(seq![s + split_segments(Seq::<char>::empty())[0]]
        + split_segments(Seq::<char>::empty()).skip(1) =~= seq![s]);
}

/// How one raw pattern segment compiles.
pub open spec fn seg_of(raw: Seq<char>) -> SegView {
    if raw == seq!['*'] {
        SegView::Wildcard
    } else if raw.len() > 0 && raw[0] == ':' {
        SegView::Param
    } else {
        SegView::Literal(raw)
    }
}

/// A raw pattern segment is acceptable at position `i`: it is non-empty, and
/// a wildcard may only stand last.
pub open spec fn raw_seg_ok(raw: Seq<Seq<char>>, i: int) -> bool {
    raw[i].len() > 0 && (raw[i] == seq!['*'] ==> i == raw.len() - 1)
}

/// The compiled form of a pattern string, or `None` when the pattern is
/// rejected: empty, missing the leading separator, an empty segment (as from
/// a doubled or trailing separator), or a wildcard that is not last. The
/// root pattern `/` compiles to zero segments.
pub open spec fn spec_parse(p: Seq<char>) -> Option<Seq<SegView>> {
    if p.len() == 0 || p[0] != '/' {
        None
    } else if p.len() == 1 {
        Some(Seq::<SegView>::empty())
    } else {
        let raw = split_segments(p.skip(1));
        if forall|i: int| 0 <= i < raw.len() ==> raw_seg_ok(raw, i) {
            Some(raw.map_values(|r: Seq<char>| seg_of(r)))
        } else {
            None
        }
    }
}

/// Whether one compiled segment accepts one candidate segment.
pub open spec fn seg_matches(pat: SegView, cand: Seq<char>) -> bool {
    match pat {
        SegView::Literal(l) => cand == l,
        SegView::Param => cand.len() > 0,
        SegView::Wildcard => true,
    }
}

/// Whether a compiled pattern accepts a candidate segment list: segments are
/// compared pairwise, a wildcard accepts everything that remains, and
/// without a wildcard the counts must agree exactly.
pub open spec fn segs_match(pat: Seq<SegView>, cand: Seq<Seq<char>>) -> bool
    decreases pat.len(),
{
    if pat.len() == 0 {
        cand.len() == 0
    } else if pat[0] is Wildcard {
        true
    } else {
        cand.len() > 0 && seg_matches(pat[0], cand[0]) && segs_match(pat.skip(1), cand.skip(1))
    }
}

/// The candidate path's segment list: `/` has zero segments, any other path
/// starting with `/` splits after the leading separator.
pub open spec fn candidate_segments(c: Seq<char>) -> Seq<Seq<char>> {
    if c.len() == 1 {
        Seq::<Seq<char>>::empty()
    } else {
        split_segments(c.skip(1))
    }
}

/// Whether a compiled pattern accepts a candidate path. A candidate that
/// does not start with the separator matches nothing.
pub open spec fn path_matches(pat: Seq<SegView>, c: Seq<char>) -> bool {
    c.len() > 0 && c[0] == '/' && segs_match(pat, candidate_segments(c))
}

/// Rejoins split segments with the separator: the inverse of
/// `split_segments`.
pub open spec fn join_segments(segs: Seq<Seq<char>>) -> Seq<char>
    decreases segs.len(),
{
    if segs.len() == 0 {
        Seq::<char>::empty()
    } else if segs.len() == 1 {
        segs[0]
    } else {
        segs[0] + seq!['/'] + join_segments(segs.skip(1))
    }
}

/// Splitting loses nothing: joining the segments gives the text back.
pub proof fn lemma_join_split(s: Seq<char>)
    ensures
        join_segments(split_segments(s)) == s,
    decreases s.len(),
{
    if s.len() == 0 {
    } else if s[0] == '/' {
        lemma_join_split(s.skip(1));
        lemma_split_segments_len(s.skip(1));
        assert(split_segments(s).skip(1) =~= split_segments(s.skip(1)));
        assert(split_segments(s)[0] =~= Seq::<char>::empty());
        assert(Seq::<char>::empty() + seq!['/'] + s.skip(1) =~= s);
    } else {
        lemma_join_split(s.skip(1));
        lemma_split_segments_len(s.skip(1));
        let rest = split_segments(s.skip(1));
        if rest.len() == 1 {
            assert(split_segments(s) =~= seq![seq![s[0]] + rest[0]]);
            assert(join_segments(rest) == rest[0]);
            assert(seq![s[0]] + s.skip(1) =~= s);
        } else {
            assert(split_segments(s)[0] == seq![s[0]] + rest[0]);
            assert(split_segments(s).skip(1) =~= rest.skip(1));
            assert(join_segments(rest) == rest[0] + seq!['/'] + join_segments(rest.skip(1)));
            assert((seq![s[0]] + rest[0]) + seq!['/'] + join_segments(rest.skip(1)) =~= seq![
                s[0],
            ] + (rest[0] + seq!['/'] + join_segments(rest.skip(1))));
            assert(seq![s[0]] + s.skip(1) =~= s);
        }
    }
}

/// Two texts with the same segments are the same text.
pub proof fn lemma_split_injective(x: Seq<char>, y: Seq<char>)
    requires
        split_segments(x) == split_segments(y),
    ensures
        x == y,
{
    lemma_join_split(x);
    lemma_join_split(y);
}

/// Without a wildcard, a match pairs the segments one to one: the counts
/// agree exactly and every pattern segment accepts its candidate segment.
pub proof fn lemma_match_exact_depth(pat: Seq<SegView>, cand: Seq<Seq<char>>)
    requires
        forall|k: int| 0 <= k < pat.len() ==> !(pat[k] is Wildcard),
    ensures
        segs_match(pat, cand) <==> (cand.len() == pat.len() && forall|k: int|
            0 <= k < pat.len() ==> seg_matches(pat[k], cand[k])),
    decreases pat.len(),
{
    if pat.len() == 0 {
    } else {
        assert(forall|k: int|
            0 <= k < pat.skip(1).len() ==> !(pat.skip(1)[k] is Wildcard));
        lemma_match_exact_depth(pat.skip(1), cand.skip(1));
        if segs_match(pat, cand) {
            assert forall|k: int| 0 <= k < pat.len() implies seg_matches(pat[k], cand[k]) by {
                if k > 0 {
                    assert(seg_matches(pat.skip(1)[k - 1], cand.skip(1)[k - 1]));
                }
            }
        } else {
            if cand.len() == pat.len() && forall|k: int|
                0 <= k < pat.len() ==> seg_matches(pat[k], cand[k]) {
                assert(forall|k: int|
                    0 <= k < pat.skip(1).len() ==> seg_matches(
                        pat.skip(1)[k],
                        cand.skip(1)[k],
                    ));
                assert(segs_match(pat.skip(1), cand.skip(1)));
                assert(seg_matches(pat[0], cand[0]));
                assert(segs_match(pat, cand));
            }
        }
    }
}

/// A pattern that ends in its only wildcard matches exactly the candidates
/// whose leading segments satisfy the segments before the wildcard — at any
/// depth beyond them, including none.
pub proof fn lemma_wildcard_tail(pat: Seq<SegView>, cand: Seq<Seq<char>>)
    requires
        pat.len() > 0,
        pat.last() is Wildcard,
        forall|k: int| 0 <= k < pat.len() - 1 ==> !(pat[k] is Wildcard),
    ensures
        segs_match(pat, cand) <==> (cand.len() >= pat.len() - 1 && forall|k: int|
            0 <= k < pat.len() - 1 ==> seg_matches(pat[k], cand[k])),
    decreases pat.len(),
{
    if pat.len() == 1 {
        assert(pat[0] is Wildcard);
        assert(segs_match(pat, cand));
    } else {
        assert(!(pat[0] is Wildcard));
        assert(pat.skip(1).last() == pat.last());
        assert(forall|k: int|
            0 <= k < pat.skip(1).len() - 1 ==> !(pat.skip(1)[k] is Wildcard));
        lemma_wildcard_tail(pat.skip(1), cand.skip(1));
        if segs_match(pat, cand) {
            assert forall|k: int| 0 <= k < pat.len() - 1 implies seg_matches(pat[k], cand[k]) by {
                if k > 0 {
                    assert(seg_matches(pat.skip(1)[k - 1], cand.skip(1)[k - 1]));
                }
            }
        } else {
            if cand.len() >= pat.len() - 1 && forall|k: int|
                0 <= k < pat.len() - 1 ==> seg_matches(pat[k], cand[k]) {
                assert(forall|k: int|
                    0 <= k < pat.skip(1).len() - 1 ==> seg_matches(
                        pat.skip(1)[k],
                        cand.skip(1)[k],
                    ));
                assert(segs_match(pat.skip(1), cand.skip(1)));
                assert(seg_matches(pat[0], cand[0]));
                assert(segs_match(pat, cand));
            }
        }
    }
}

/// A pattern of literal segments only matches exactly its own text: the
/// candidate equal to the pattern, and no other.
pub proof fn lemma_literal_pattern_exact(p: Seq<char>, pat: Seq<SegView>, c: Seq<char>)
    requires
        spec_parse(p) == Some(pat),
        forall|k: int| 0 <= k < pat.len() ==> pat[k] is Literal,
    ensures
        path_matches(pat, c) <==> c == p,
{
    assert(p.len() > 0 && p[0] == '/');
    if p.len() == 1 {
        assert(pat =~= Seq::<SegView>::empty());
        if path_matches(pat, c) {
            assert(candidate_segments(c).len() == 0);
            if c.len() != 1 {
                lemma_split_segments_len(c.skip(1));
            }
            assert(c.len() == 1 && c[0] == '/');
            assert(c =~= p);
        }
        if c == p {
            assert(c.len() == 1 && c[0] == '/');
            assert(segs_match(pat, candidate_segments(c)));
        }
    } else {
        let raw = split_segments(p.skip(1));
        assert(pat == raw.map_values(|r: Seq<char>| seg_of(r)));
        assert(pat.len() == raw.len());
        lemma_split_segments_len(p.skip(1));
        assert forall|k: int| 0 <= k < pat.len() implies pat[k] == SegView::Literal(raw[k])
            && !(pat[k] is Wildcard) by {
            assert(pat[k] == seg_of(raw[k]));
        }
        lemma_match_exact_depth(pat, candidate_segments(c));
        if path_matches(pat, c) {
            let cs = candidate_segments(c);
            assert(cs.len() == raw.len());
            assert(c.len() != 1);
            assert(cs == split_segments(c.skip(1)));
            assert forall|k: int| 0 <= k < raw.len() implies cs[k] == raw[k] by {
                assert(seg_matches(pat[k], cs[k]));
            }
            assert(cs =~= raw);
            lemma_split_injective(c.skip(1), p.skip(1));
            assert(c.skip(1) == p.skip(1));
            assert(c.skip(1).len() == p.skip(1).len());
            assert forall|i: int| 0 <= i < c.len() implies c[i] == p[i] by {
                if i > 0 {
                    assert(c.skip(1)[i - 1] == p.skip(1)[i - 1]);
                }
            }
            assert(c =~= p);
        }
        if c == p {
            assert(c.len() > 1 && c[0] == '/');
            let cs = candidate_segments(c);
            assert(cs == raw);
            assert(forall|k: int| 0 <= k < pat.len() ==> seg_matches(pat[k], cs[k]));
            assert(segs_match(pat, cs));
        }
    }
}

/// The element-wise views of a list of character lists.
pub open spec fn views_of(vs: Seq<Vec<char>>) -> Seq<Seq<char>> {
    vs.map_values(|v: Vec<char>| v@)
}

/// The element-wise views of a list of compiled segments.
pub open spec fn seg_views(ss: Seq<Segment>) -> Seq<SegView> {
    ss.map_values(|s: Segment| s@)
}

pub(crate) fn to_char_vec(s: &str) -> (v: Vec<char>)
    ensures
        v@ == s@,
{
    let n = s.unicode_len();
    let mut v: Vec<char> = Vec::new();
    let mut i: usize = 0;
    while i < n
        invariant
            n == s@.len(),
            i <= n,
            v@ == s@.take(i as int),
        decreases n - i,
    {
        let c = s.get_char(i);
        v.push(c);
        proof {
            assert(v@ =~= s@.take(i + 1));
        }
        i += 1;
    }
    proof {
        assert(s@.take(n as int) =~= s@);
    }
    v
}

fn clone_chars(v: &Vec<char>) -> (r: Vec<char>)
    ensures
        r@ == v@,
{
    let mut r: Vec<char> = Vec::new();
    let mut i: usize = 0;
    while i < v.len()
        invariant
            i <= v.len(),
            r@ == v@.take(i as int),
        decreases v.len() - i,
    {
        r.push(v[i]);
        proof {
            assert(r@ =~= v@.take(i + 1));
        }
        i += 1;
    }
    proof {
        assert(v@.take(v.len() as int) =~= v@);
    }
    r
}

fn char_vecs_eq(a: &Vec<char>, b: &Vec<char>) -> (r: bool)
    ensures
        r == (a@ == b@),
{
    if a.len() != b.len() {
        return false;
    }
    let mut i: usize = 0;
    while i < a.len()
        invariant
            a.len() == b.len(),
            i <= a.len(),
            forall|k: int| 0 <= k < i ==> a@[k] == b@[k],
        decreases a.len() - i,
    {
        if a[i] != b[i] {
            return false;
        }
        i += 1;
    }
    proof {
        assert(a@ =~= b@);
    }
    true
}

/// Splits `chars` from position `from` on at every `/`, as `split_segments`
/// describes.
fn split_exec(chars: &Vec<char>, from: usize) -> (r: Vec<Vec<char>>)
    requires
        from <= chars.len(),
    ensures
        views_of(r@) == split_segments(chars@.skip(from as int)),
{
    let mut result: Vec<Vec<char>> = Vec::new();
    let mut cur: Vec<char> = Vec::new();
    let mut i: usize = from;
    while i < chars.len()
        invariant
            from <= i <= chars.len(),
            forall|k: int| 0 <= k < cur@.len() ==> cur@[k] != '/',
            split_segments(chars@.skip(from as int)) == views_of(result@) + split_segments(
                cur@ + chars@.skip(i as int),
            ),
        decreases chars.len() - i,
    {
        let c = chars[i];
        if c == '/' {
            proof {
                let s_i = chars@.skip(i as int);
                assert(s_i[0] == '/');
                lemma_split_prepend(cur@, s_i);
                assert(cur@ + split_segments(s_i)[0] =~= cur@);
                assert(split_segments(s_i).skip(1) =~= split_segments(s_i.skip(1)));
                assert(s_i.skip(1) =~= chars@.skip(i + 1));
                assert(split_segments(cur@ + s_i) =~= seq![cur@] + split_segments(
                    chars@.skip(i + 1),
                ));
            }
            let ghost old_result = result@;
            let ghost old_cur = cur@;
            result.push(cur);
            cur = Vec::new();
            proof {
                assert(views_of(result@) =~= views_of(old_result).push(old_cur));
                assert(cur@ + chars@.skip(i + 1) =~= chars@.skip(i + 1));
                assert(views_of(result@) + split_segments(chars@.skip(i + 1)) =~= views_of(
                    old_result,
                ) + (seq![old_cur] + split_segments(chars@.skip(i + 1))));
            }
        } else {
            proof {
                assert(chars@.skip(i as int) =~= seq![chars@[i as int]] + chars@.skip(i + 1));
                assert(cur@.push(c) + chars@.skip(i + 1) =~= cur@ + chars@.skip(i as int));
            }
            cur.push(c);
        }
        i += 1;
    }
    proof {
        assert(cur@ + chars@.skip(i as int) =~= cur@);
        lemma_split_single(cur@);
    }
    let ghost old_result = result@;
    let ghost old_cur = cur@;
    result.push(cur);
    proof {
        assert(views_of(result@) =~= views_of(old_result).push(old_cur));
        assert(views_of(old_result) + seq![old_cur] =~= views_of(result@));
    }
    result
}

fn segs_match_exec(pat: &Vec<Segment>, cand: &Vec<Vec<char>>) -> (b: bool)
    ensures
        b == segs_match(seg_views(pat@), views_of(cand@)),
{
    let ghost pv = seg_views(pat@);
    let ghost cv = views_of(cand@);
    proof {
        assert(pv.skip(0) =~= pv);
        assert(cv.skip(0) =~= cv);
    }
    let mut i: usize = 0;
    while i < pat.len()
        invariant
            i <= pat.len(),
            i <= cand.len(),
            pv == seg_views(pat@),
            cv == views_of(cand@),
            segs_match(pv, cv) == segs_match(pv.skip(i as int), cv.skip(i as int)),
        decreases pat.len() - i,
    {
        proof {
            assert(pv.skip(i as int)[0] == pv[i as int]);
            assert(pv[i as int] == pat@[i as int]@);
        }
        match &pat[i] {
            Segment::Wildcard => {
                return true;
            },
            Segment::Param => {
                if i >= cand.len() {
                    return false;
                }
                proof {
                    assert(cv.skip(i as int)[0] == cv[i as int]);
                    assert(cv[i as int] == cand@[i as int]@);
                }
                if cand[i].len() == 0 {
                    return false;
                }
            },
            Segment::Literal(l) => {
                if i >= cand.len() {
                    return false;
                }
                proof {
                    assert(cv.skip(i as int)[0] == cv[i as int]);
                    assert(cv[i as int] == cand@[i as int]@);
                }
                if !char_vecs_eq(l, &cand[i]) {
                    return false;
                }
            },
        }
        proof {
            assert(pv.skip(i as int).skip(1) =~= pv.skip(i + 1));
            assert(cv.skip(i as int).skip(1) =~= cv.skip(i + 1));
        }
        i += 1;
    }
    proof {
        assert(pv.skip(i as int).len() == 0);
    }
    i == cand.len()
}

/// A compiled path pattern: the original text and its segment sequence.
#[derive(Clone, Debug)]
pub struct Path {
    /// The pattern text this path was compiled from.
    pub pattern: String,
    /// The compiled segments, in order.
    pub segments: Vec<Segment>,
}

impl View for Path {
    type V = Seq<SegView>;

    open spec fn view(&self) -> Seq<SegView> {
        seg_views(self.segments@)
    }
}

impl Path {
    /// Compiles a pattern string. Returns `Err` exactly when `spec_parse`
    /// rejects the text; on success the compiled segments are the ones
    /// `spec_parse` gives and the original text is kept.
    pub fn parse(pattern: &str) -> (r: Result<Path, Error>)
        ensures
            match r {
                Ok(path) => spec_parse(pattern@) == Some(path@) && path.pattern@ == pattern@,
                Err(e) => spec_parse(pattern@) is None && e == Error::InvalidPath,
            },
    {
        let n = pattern.unicode_len();
        if n == 0 {
            return Err(Error::InvalidPath);
        }
        if pattern.get_char(0) != '/' {
            return Err(Error::InvalidPath);
        }
        if n == 1 {
            let p = Path { pattern: pattern.to_owned(), segments: Vec::new() };
            proof {
                assert(p@ =~= Seq::<SegView>::empty());
            }
            return Ok(p);
        }
        let chars = to_char_vec(pattern);
        let raw = split_exec(&chars, 1);
        let ghost rawv = views_of(raw@);
        let mut segments: Vec<Segment> = Vec::new();
        let mut i: usize = 0;
        while i < raw.len()
            invariant
                i <= raw.len(),
                rawv == views_of(raw@),
                rawv == split_segments(pattern@.skip(1)),
                pattern@.len() > 1 && pattern@[0] == '/',
                forall|j: int| 0 <= j < i ==> raw_seg_ok(rawv, j),
                segments@.len() == i,
                forall|j: int| 0 <= j < i ==> seg_views(segments@)[j] == seg_of(rawv[j]),
            decreases raw.len() - i,
        {
            let seg = &raw[i];
            proof {
                assert(rawv[i as int] == raw@[i as int]@);
            }
            if seg.len() == 0 {
                proof {
                    assert(!raw_seg_ok(rawv, i as int));
                }
                return Err(Error::InvalidPath);
            }
            let is_star = seg.len() == 1 && seg[0] == '*';
            proof {
                assert(is_star == (rawv[i as int] =~= seq!['*']));
            }
            let ghost old_segments = segments@;
            if is_star {
                if i + 1 != raw.len() {
                    proof {
                        assert(!raw_seg_ok(rawv, i as int));
                    }
                    return Err(Error::InvalidPath);
                }
                segments.push(Segment::Wildcard);
            } else if seg[0] == ':' {
                segments.push(Segment::Param);
            } else {
                let lit = clone_chars(seg);
                segments.push(Segment::Literal(lit));
            }
            proof {
                assert(seg_views(segments@)[i as int] == segments@[i as int]@);
                assert(segments@[i as int]@ == seg_of(rawv[i as int]));
                assert forall|j: int| 0 <= j < i implies seg_views(segments@)[j] == seg_of(
                    rawv[j],
                ) by {
                    assert(segments@[j] == old_segments[j]);
                    assert(seg_views(old_segments)[j] == old_segments[j]@);
                    assert(seg_views(segments@)[j] == segments@[j]@);
                }
            }
            i += 1;
        }
        let p = Path { pattern: pattern.to_owned(), segments };
        proof {
            assert(p@ =~= rawv.map_values(|r: Seq<char>| seg_of(r)));
        }
        Ok(p)
    }

    /// The pattern text this path was compiled from.
    pub fn as_str(&self) -> (r: &str)
        ensures
            r@ == self.pattern@,
    {
        self.pattern.as_str()
    }

    /// Tests a candidate path against the compiled pattern: a pure
    /// predicate, `path_matches` exactly.
    pub fn is_match(&self, candidate: &str) -> (b: bool)
        ensures
            b == path_matches(self@, candidate@),
    {
        let n = candidate.unicode_len();
        if n == 0 {
            return false;
        }
        if candidate.get_char(0) != '/' {
            return false;
        }
        if n == 1 {
            let empty: Vec<Vec<char>> = Vec::new();
            proof {
                assert(views_of(empty@) =~= Seq::<Seq<char>>::empty());
            }
            return segs_match_exec(&self.segments, &empty);
        }
        let chars = to_char_vec(candidate);
        let cand = split_exec(&chars, 1);
        segs_match_exec(&self.segments, &cand)
    }
}

} // verus!

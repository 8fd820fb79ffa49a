//! Glob pattern matching for filter rules.

use vstd::prelude::*;
use vstd::utf8::encode_utf8;

use crate::error::{FilterError, FilterErrorView};
use crate::filelist::entry::{find_last_slash, last_slash, last_slash_is_last};
use crate::text::{from_chars, lossy_string, lossy_text, to_chars};

verus! {

/// A part of a pattern.
#[derive(Debug, Clone)]
pub enum Segment {
    /// Any bytes but `/`.
    Star,
    /// Any bytes.
    DoubleStar,
    /// One byte but `/`.
    Question,
    /// The bytes themselves.
    Literal(Vec<u8>),
    /// One byte of a set, or one that is not in it.
    CharClass { chars: Vec<u8>, negated: bool },
}

/// The view of a [`Segment`].
#[verifier::ext_equal]
pub enum SegmentView {
    Star,
    DoubleStar,
    Question,
    Literal(Seq<u8>),
    CharClass { chars: Seq<u8>, negated: bool },
}

impl View for Segment {
    type V = SegmentView;

    open spec fn view(&self) -> SegmentView {
        match *self {
            Segment::Star => SegmentView::Star,
            Segment::DoubleStar => SegmentView::DoubleStar,
            Segment::Question => SegmentView::Question,
            Segment::Literal(b) => SegmentView::Literal(b@),
            Segment::CharClass { chars, negated } => SegmentView::CharClass {
                chars: chars@,
                negated,
            },
        }
    }
}

/// The views of segments.
pub open spec fn segment_views(s: Seq<Segment>) -> Seq<SegmentView> {
    Seq::new(s.len(), |i: int| s[i]@)
}

/// A compiled glob pattern.
#[derive(Debug, Clone)]
pub struct Pattern {
    source: String,
    anchored: bool,
    dir_only: bool,
    segments: Vec<Segment>,
}

/// The view of a [`Pattern`].
#[verifier::ext_equal]
pub struct PatternView {
    /// The pattern as written.
    pub source: Seq<char>,
    /// Whether only a whole path matches.
    pub anchored: bool,
    /// Whether only directories match.
    pub dir_only: bool,
    /// The parts.
    pub segments: Seq<SegmentView>,
}

impl View for Pattern {
    type V = PatternView;

    closed spec fn view(&self) -> PatternView {
        PatternView {
            source: self.source@,
            anchored: self.anchored,
            dir_only: self.dir_only,
            segments: segment_views(self.segments@),
        }
    }
}

// ---------------------------------------------------------------------------
// What a pattern says
// ---------------------------------------------------------------------------

/// A byte that starts a wildcard.
pub open spec fn is_special(b: u8) -> bool {
    b == 0x2A || b == 0x3F || b == 0x5B
}

/// Where a run of plain bytes ends.
pub open spec fn literal_end(pat: Seq<u8>, i: int) -> int
    decreases pat.len() - i,
{
    if i < 0 || i >= pat.len() || is_special(pat[i]) {
        i
    } else {
        literal_end(pat, i + 1)
    }
}

/// The bytes from one to another.
pub open spec fn byte_span(lo: u8, hi: u8) -> Seq<u8> {
    Seq::new(
        if lo <= hi {
            (hi - lo + 1) as nat
        } else {
            0
        },
        |k: int| (lo + k) as u8,
    )
}

/// The bytes of a character class from a place on, and where it ends.
pub open spec fn class_bytes(pat: Seq<u8>, i: int) -> (Seq<u8>, int)
    decreases pat.len() - i,
{
    if i < 0 || i >= pat.len() || pat[i] == 0x5D {
        (Seq::empty(), i)
    } else if i + 2 < pat.len() && pat[i + 1] == 0x2D {
        let rest = class_bytes(pat, i + 3);
        (byte_span(pat[i], pat[i + 2]) + rest.0, rest.1)
    } else {
        let rest = class_bytes(pat, i + 1);
        (seq![pat[i]] + rest.0, rest.1)
    }
}

/// Whether the class that starts at a place is negated.
pub open spec fn class_negated(pat: Seq<u8>, start: int) -> bool {
    start + 1 < pat.len() && (pat[start + 1] == 0x21 || pat[start + 1] == 0x5E)
}

/// The class that starts at a place, and where it ends.
pub open spec fn class_at(pat: Seq<u8>, start: int) -> (Seq<u8>, int) {
    class_bytes(
        pat,
        if class_negated(pat, start) {
            start + 2
        } else {
            start + 1
        },
    )
}

/// A class goes on from where it starts.
pub proof fn class_goes_on(pat: Seq<u8>, i: int)
    ensures
        class_bytes(pat, i).1 >= i,
    decreases pat.len() - i,
{
    if i < 0 || i >= pat.len() || pat[i] == 0x5D {
    } else if i + 2 < pat.len() && pat[i + 1] == 0x2D {
        class_goes_on(pat, i + 3);
    } else {
        class_goes_on(pat, i + 1);
    }
}

/// Plain bytes go on from where they start.
pub proof fn literal_goes_on(pat: Seq<u8>, i: int)
    requires
        0 <= i <= pat.len(),
    ensures
        i <= literal_end(pat, i) <= pat.len(),
        i < pat.len() && !is_special(pat[i]) ==> literal_end(pat, i) > i,
    decreases pat.len() - i,
{
    if i < pat.len() {
        literal_goes_on(pat, i + 1);
    }
}

/// Where a double star ends: a slash behind it is implied.
pub open spec fn double_star_end(pat: Seq<u8>, i: int) -> int {
    if i + 2 < pat.len() && pat[i + 2] == 0x2F {
        i + 3
    } else {
        i + 2
    }
}

/// One part before the others.
pub open spec fn and_then_parts(first: SegmentView, rest: Result<Seq<SegmentView>, int>) -> Result<
    Seq<SegmentView>,
    int,
> {
    match rest {
        Ok(r) => Ok(seq![first] + r),
        Err(e) => Err(e),
    }
}

/// The parts of a pattern from a place on, or where a class starts that has
/// no end.
pub open spec fn parts_from(pat: Seq<u8>, i: int) -> Result<Seq<SegmentView>, int>
    decreases pat.len() - i,
{
    if i < 0 || i >= pat.len() {
        Ok(Seq::empty())
    } else if pat[i] == 0x2A && i + 1 < pat.len() && pat[i + 1] == 0x2A {
        and_then_parts(SegmentView::DoubleStar, parts_from(pat, double_star_end(pat, i)))
    } else if pat[i] == 0x2A {
        and_then_parts(SegmentView::Star, parts_from(pat, i + 1))
    } else if pat[i] == 0x3F {
        and_then_parts(SegmentView::Question, parts_from(pat, i + 1))
    } else if pat[i] == 0x5B {
        proof {
            class_goes_on(
                pat,
                if class_negated(pat, i) {
                    i + 2
                } else {
                    i + 1
                },
            );
        }
        let (chars, end) = class_at(pat, i);
        if end >= pat.len() {
            Err(i)
        } else {
            and_then_parts(
                SegmentView::CharClass { chars, negated: class_negated(pat, i) },
                parts_from(pat, end + 1),
            )
        }
    } else {
        proof {
            literal_goes_on(pat, i);
        }
        let end = literal_end(pat, i);
        and_then_parts(SegmentView::Literal(pat.subrange(i, end)), parts_from(pat, end))
    }
}

/// A pattern without its leading slash.
pub open spec fn without_lead(s: Seq<char>) -> Seq<char> {
    if s.len() > 0 && s[0] == '/' {
        s.skip(1)
    } else {
        s
    }
}

/// A pattern without its trailing slash.
pub open spec fn without_trail(s: Seq<char>) -> Seq<char> {
    if s.len() > 0 && s.last() == '/' {
        s.drop_last()
    } else {
        s
    }
}

/// Whether a pattern is matched against whole paths only: it starts with a
/// slash or has one inside.
pub open spec fn is_anchored(s: Seq<char>) -> bool {
    (s.len() > 0 && s[0] == '/') || without_trail(without_lead(s)).contains('/')
}

/// The error for a class without an end.
pub open spec fn unterminated(pat: Seq<u8>, start: int) -> FilterErrorView {
    FilterErrorView::InvalidPattern {
        pattern: lossy_text(pat.skip(start)),
        message: "unterminated character class"@,
    }
}

/// The pattern that a text denotes.
pub open spec fn pattern_of(s: Seq<char>) -> Result<PatternView, FilterErrorView> {
    let inner = without_lead(s);
    let pat = encode_utf8(without_trail(inner));
    match parts_from(pat, 0) {
        Ok(segments) => Ok(
            PatternView {
                source: s,
                anchored: is_anchored(s),
                dir_only: inner.len() > 0 && inner.last() == '/',
                segments,
            },
        ),
        Err(start) => Err(unterminated(pat, start)),
    }
}

// ---------------------------------------------------------------------------
// What a pattern matches
// ---------------------------------------------------------------------------

/// No slash among the first bytes of a text.
pub open spec fn no_slash_before(text: Seq<u8>, n: int) -> bool {
    forall|j: int| 0 <= j < n ==> text[j] != 0x2F
}

/// The parts from one on match a text.
pub open spec fn parts_match(parts: Seq<SegmentView>, k: int, text: Seq<u8>) -> bool
    decreases parts.len() - k,
{
    if k < 0 || k >= parts.len() {
        text.len() == 0
    } else {
        match parts[k] {
            SegmentView::Literal(lit) => lit.len() <= text.len() && text.take(lit.len() as int)
                == lit && parts_match(parts, k + 1, text.skip(lit.len() as int)),
            SegmentView::Star => exists|i: int|
                0 <= i <= text.len() && no_slash_before(text, i) && parts_match(
                    parts,
                    k + 1,
                    #[trigger] text.skip(i),
                ),
            SegmentView::DoubleStar => exists|i: int|
                0 <= i <= text.len() && parts_match(parts, k + 1, #[trigger] text.skip(i)),
            SegmentView::Question => text.len() > 0 && text[0] != 0x2F && parts_match(
                parts,
                k + 1,
                text.skip(1),
            ),
            SegmentView::CharClass { chars, negated } => text.len() > 0 && chars.contains(text[0])
                != negated && parts_match(parts, k + 1, text.skip(1)),
        }
    }
}

/// A pattern matches a path: as a whole, or where it is not anchored by the
/// last component alone.
pub open spec fn pattern_matches(p: PatternView, path: Seq<u8>, is_dir: bool) -> bool {
    &&& p.dir_only ==> is_dir
    &&& {
        ||| parts_match(p.segments, 0, path)
        ||| !p.anchored && last_slash(path) >= 0 && parts_match(
            p.segments,
            0,
            path.skip(last_slash(path) + 1),
        )
    }
}

/// A pattern without wildcards matches the path that it spells and, where it
/// has no slash, every path whose last component it spells.
pub proof fn plain_pattern_matches(s: Seq<char>, path: Seq<u8>, is_dir: bool)
    requires
        s.len() > 0,
        s[0] != '/',
        s.last() != '/',
        forall|i: int|
            0 <= i < encode_utf8(s).len() ==> !is_special(#[trigger] encode_utf8(s)[i]),
    ensures
        pattern_of(s) is Ok,
        pattern_matches(pattern_of(s)->Ok_0, path, is_dir) == (path == encode_utf8(s) || (
        !s.contains('/') && last_slash(path) >= 0 && path.skip(last_slash(path) + 1) == encode_utf8(
            s,
        ))),
{
    let pat = encode_utf8(s);
    if pat.len() > 0 {
        plain_run(pat, 0);
        assert(pat.subrange(0, pat.len() as int) =~= pat);
        assert(parts_from(pat, pat.len() as int) == Ok::<Seq<SegmentView>, int>(Seq::empty()));
        let parts = seq![SegmentView::Literal(pat)] + Seq::<SegmentView>::empty();
        assert(parts_from(pat, 0) == Ok::<Seq<SegmentView>, int>(parts));
        plain_match(parts, pat, path);
        plain_match(parts, pat, path.skip(last_slash(path) + 1));
    } else {
        let parts = Seq::<SegmentView>::empty();
        assert(parts_from(pat, 0) == Ok::<Seq<SegmentView>, int>(parts));
        let tail = path.skip(last_slash(path) + 1);
        assert(path.len() == 0 ==> path =~= pat);
        assert(tail.len() == 0 ==> tail =~= pat);
    }
}

proof fn plain_run(pat: Seq<u8>, i: int)
    requires
        0 <= i <= pat.len(),
        forall|j: int| 0 <= j < pat.len() ==> !is_special(#[trigger] pat[j]),
    ensures
        literal_end(pat, i) == pat.len(),
    decreases pat.len() - i,
{
    if i < pat.len() {
        plain_run(pat, i + 1);
    }
}

proof fn plain_match(parts: Seq<SegmentView>, pat: Seq<u8>, text: Seq<u8>)
    requires
        parts.len() == 1,
        parts[0] == SegmentView::Literal(pat),
    ensures
        parts_match(parts, 0, text) == (text == pat),
{
    let rest = text.skip(pat.len() as int);
    assert(parts_match(parts, 1, rest) == (rest.len() == 0));
    if text == pat {
        assert(text.take(pat.len() as int) =~= pat);
    }
    if parts_match(parts, 0, text) {
        assert(text =~= text.take(pat.len() as int));
    }
}

// ---------------------------------------------------------------------------
// Compiling and matching
// ---------------------------------------------------------------------------

impl Pattern {
    /// Compile a pattern string into a matcher.
    pub fn new(pattern: &str) -> (r: Result<Pattern, FilterError>)
        ensures
            match r {
                Ok(p) => pattern_of(pattern@) == Ok::<PatternView, FilterErrorView>(p@),
                Err(e) => pattern_of(pattern@) == Err::<PatternView, FilterErrorView>(e@),
            },
    {
        let chars = to_chars(pattern);
        let lead = chars.len() > 0 && chars[0] == '/';
        let lo: usize = if lead {
            1
        } else {
            0
        };
        let dir_only = chars.len() > lo && chars[chars.len() - 1] == '/';
        let hi: usize = if dir_only {
            chars.len() - 1
        } else {
            chars.len()
        };
        let inner = vstd::slice::slice_subrange(chars.as_slice(), lo, hi);
        proof {
            assert(without_lead(pattern@) =~= chars@.skip(lo as int));
            assert(inner@ =~= without_trail(without_lead(pattern@)));
        }
        let anchored = lead || has_char(inner, '/');
        let text = from_chars(inner);
        let bytes = text.as_str().as_bytes();
        match Self::compile(bytes) {
            Ok(segments) => {
                let source = from_chars(chars.as_slice());
                Ok(Pattern { source, anchored, dir_only, segments })
            },
            Err(e) => Err(e),
        }
    }

    fn compile(pat: &[u8]) -> (r: Result<Vec<Segment>, FilterError>)
        ensures
            match r {
                Ok(s) => parts_from(pat@, 0) == Ok::<Seq<SegmentView>, int>(segment_views(s@)),
                Err(e) => parts_from(pat@, 0) is Err && e@ == unterminated(
                    pat@,
                    parts_from(pat@, 0)->Err_0,
                ),
            },
    {
        let mut segments: Vec<Segment> = Vec::new();
        let mut i: usize = 0;
        let ghost all = parts_from(pat@, 0);
        proof {
            assert(segment_views(segments@) =~= Seq::empty());
            match all {
                Ok(r) => {
                    assert(segment_views(segments@) + r =~= r);
                },
                Err(_) => {},
            }
        }
        while i < pat.len()
            invariant
                i <= pat.len(),
                all == parts_from(pat@, 0),
                match parts_from(pat@, i as int) {
                    Ok(rest) => all == Ok::<Seq<SegmentView>, int>(
                        segment_views(segments@) + rest,
                    ),
                    Err(e) => all == Err::<Seq<SegmentView>, int>(e),
                },
            decreases pat.len() - i,
        {
            let b: u8 = pat[i];
            let ghost from = i as int;
            let ghost before = segment_views(segments@);
            let segment: Segment;
            if b == 0x2A {
                if pat.len() - i > 1 && pat[i + 1] == 0x2A {
                    segment = Segment::DoubleStar;
                    i = i + 2;
                    if i < pat.len() && pat[i] == 0x2F {
                        i = i + 1;
                    }
                } else {
                    segment = Segment::Star;
                    i = i + 1;
                }
            } else if b == 0x3F {
                segment = Segment::Question;
                i = i + 1;
            } else if b == 0x5B {
                match Self::parse_char_class(pat, i) {
                    Ok((class, end)) => {
                        segment = class;
                        i = end;
                    },
                    Err(e) => {
                        return Err(e);
                    },
                }
            } else {
                let start: usize = i;
                proof {
                    literal_goes_on(pat@, start as int);
                }
                while i < pat.len() && !(pat[i] == 0x2A || pat[i] == 0x3F || pat[i] == 0x5B)
                    invariant
                        start <= i <= pat.len(),
                        literal_end(pat@, start as int) == literal_end(pat@, i as int),
                    decreases pat.len() - i,
                {
                    i = i + 1;
                }
                segment = Segment::Literal(vstd::slice::slice_to_vec(
                    vstd::slice::slice_subrange(pat, start, i),
                ));
            }
            let ghost sv = segment@;
            segments.push(segment);
            proof {
                assert(segment_views(segments@) =~= before.push(sv));
                assert(parts_from(pat@, from) == and_then_parts(sv, parts_from(pat@, i as int)));
                match parts_from(pat@, i as int) {
                    Ok(rest) => {
                        assert(before + (seq![sv] + rest) =~= before.push(sv) + rest);
                    },
                    Err(_) => {},
                }
            }
        }
        proof {
            assert(segment_views(segments@) + Seq::<SegmentView>::empty() =~= segment_views(
                segments@,
            ));
        }
        Ok(segments)
    }

    fn parse_char_class(pat: &[u8], start: usize) -> (r: Result<(Segment, usize), FilterError>)
        requires
            start < pat.len(),
        ensures
            match r {
                Ok((s, end)) => {
                    let (chars, close) = class_at(pat@, start as int);
                    &&& close < pat.len()
                    &&& end == close + 1
                    &&& start < end <= pat.len()
                    &&& s@ == (SegmentView::CharClass {
                        chars,
                        negated: class_negated(pat@, start as int),
                    })
                },
                Err(e) => class_at(pat@, start as int).1 >= pat.len() && e@ == unterminated(
                    pat@,
                    start as int,
                ),
            },
    {
        let mut i: usize = start + 1;
        let mut negated = false;
        if i < pat.len() && (pat[i] == 0x21 || pat[i] == 0x5E) {
            i = i + 1;
            negated = true;
        }
        let ghost whole = class_bytes(pat@, i as int);
        let mut chars: Vec<u8> = Vec::new();
        assert(chars@ + class_bytes(pat@, i as int).0 =~= whole.0);
        while i < pat.len() && pat[i] != 0x5D
            invariant
                start < i <= pat.len(),
                whole.0 == chars@ + class_bytes(pat@, i as int).0,
                whole.1 == class_bytes(pat@, i as int).1,
            decreases pat.len() - i,
        {
            let ghost had = chars@;
            let ghost here = class_bytes(pat@, i as int).0;
            if pat.len() - i > 2 && pat[i + 1] == 0x2D {
                push_span(&mut chars, pat[i], pat[i + 2]);
                proof {
                    let rest = class_bytes(pat@, i + 3).0;
                    assert(had + (byte_span(pat@[i as int], pat@[i + 2]) + rest) =~= chars@ + rest);
                }
                i = i + 3;
            } else {
                chars.push(pat[i]);
                proof {
                    let rest = class_bytes(pat@, i + 1).0;
                    assert(had + (seq![pat@[i as int]] + rest) =~= chars@ + rest);
                }
                i = i + 1;
            }
        }
        if i >= pat.len() {
            let rest = vstd::slice::slice_subrange(pat, start, pat.len());
            assert(rest@ =~= pat@.skip(start as int));
            return Err(
                FilterError::InvalidPattern {
                    pattern: lossy_string(rest),
                    message: from_chars(to_chars("unterminated character class").as_slice()),
                },
            );
        }
        assert(chars@ =~= whole.0);
        Ok((Segment::CharClass { chars, negated }, i + 1))
    }

    /// Test whether a path matches this pattern.
    ///
    /// - `path`: relative path (e.g., `foo/bar/baz.txt`)
    /// - `is_dir`: whether the path is a directory
    pub fn matches(&self, path: &[u8], is_dir: bool) -> (r: bool)
        ensures
            r == pattern_matches(self@, path@, is_dir),
    {
        if self.dir_only && !is_dir {
            return false;
        }
        if Self::match_segments(self.segments.as_slice(), path) {
            return true;
        }
        if self.anchored {
            return false;
        }
        proof {
            last_slash_is_last(path@);
        }
        match find_last_slash(path) {
            Some(pos) => {
                let tail = vstd::slice::slice_subrange(path, pos + 1, path.len());
                assert(tail@ =~= path@.skip(pos + 1));
                Self::match_segments(self.segments.as_slice(), tail)
            },
            None => false,
        }
    }

    fn match_segments(segments: &[Segment], text: &[u8]) -> (r: bool)
        ensures
            r == parts_match(segment_views(segments@), 0, text@),
    {
        Self::match_recursive(segments, text, 0)
    }

    fn match_recursive(segments: &[Segment], text: &[u8], seg_idx: usize) -> (r: bool)
        requires
            seg_idx <= segments.len(),
        ensures
            r == parts_match(segment_views(segments@), seg_idx as int, text@),
        decreases segments.len() - seg_idx,
    {
        let ghost parts = segment_views(segments@);
        let ghost k = seg_idx as int;
        if seg_idx >= segments.len() {
            return text.len() == 0;
        }
        assert(parts[k] == segments@[k]@);
        match &segments[seg_idx] {
            Segment::Literal(lit) => {
                if lit.len() <= text.len() && crate::filelist::entry::same_bytes(
                    vstd::slice::slice_subrange(text, 0, lit.len()),
                    lit.as_slice(),
                ) {
                    assert(text@.subrange(0, lit.len() as int) =~= text@.take(lit.len() as int));
                    let rest = vstd::slice::slice_subrange(text, lit.len(), text.len());
                    assert(rest@ =~= text@.skip(lit.len() as int));
                    Self::match_recursive(segments, rest, seg_idx + 1)
                } else {
                    proof {
                        if lit.len() <= text.len() {
                            assert(text@.subrange(0, lit.len() as int) =~= text@.take(
                                lit.len() as int,
                            ));
                        }
                    }
                    false
                }
            },
            Segment::Star => {
                let mut i: usize = 0;
                loop
                    invariant
                        i <= text.len(),
                        seg_idx < segments.len(),
                        k == seg_idx,
                        parts == segment_views(segments@),
                        parts[k] == SegmentView::Star,
                        no_slash_before(text@, i as int),
                        forall|j: int|
                            0 <= j < i ==> !parts_match(parts, k + 1, #[trigger] text@.skip(j)),
                    decreases text.len() - i,
                {
                    let rest = vstd::slice::slice_subrange(text, i, text.len());
                    assert(rest@ =~= text@.skip(i as int));
                    if Self::match_recursive(segments, rest, seg_idx + 1) {
                        return true;
                    }
                    if i == text.len() || text[i] == 0x2F {
                        proof {
                            assert forall|j: int|
                                0 <= j <= text.len() && no_slash_before(
                                    text@,
                                    j,
                                ) implies !parts_match(parts, k + 1, #[trigger] text@.skip(j)) by {
                                if j > i {
                                    assert(text@[i as int] != 0x2F);
                                }
                            }
                        }
                        return false;
                    }
                    i = i + 1;
                }
            },
            Segment::DoubleStar => {
                let mut i: usize = 0;
                loop
                    invariant
                        i <= text.len(),
                        seg_idx < segments.len(),
                        k == seg_idx,
                        parts == segment_views(segments@),
                        parts[k] == SegmentView::DoubleStar,
                        forall|j: int|
                            0 <= j < i ==> !parts_match(parts, k + 1, #[trigger] text@.skip(j)),
                    decreases text.len() - i,
                {
                    let rest = vstd::slice::slice_subrange(text, i, text.len());
                    assert(rest@ =~= text@.skip(i as int));
                    if Self::match_recursive(segments, rest, seg_idx + 1) {
                        return true;
                    }
                    if i == text.len() {
                        return false;
                    }
                    i = i + 1;
                }
            },
            Segment::Question => {
                if text.len() > 0 && text[0] != 0x2F {
                    let rest = vstd::slice::slice_subrange(text, 1, text.len());
                    assert(rest@ =~= text@.skip(1));
                    Self::match_recursive(segments, rest, seg_idx + 1)
                } else {
                    false
                }
            },
            Segment::CharClass { chars, negated } => {
                if text.len() == 0 {
                    return false;
                }
                if has_byte(chars.as_slice(), text[0]) != *negated {
                    let rest = vstd::slice::slice_subrange(text, 1, text.len());
                    assert(rest@ =~= text@.skip(1));
                    Self::match_recursive(segments, rest, seg_idx + 1)
                } else {
                    false
                }
            },
        }
    }

    /// A copy of this pattern.
    pub fn copied(&self) -> (r: Pattern)
        ensures
            r@ == self@,
    {
        let mut segments: Vec<Segment> = Vec::new();
        let mut i: usize = 0;
        while i < self.segments.len()
            invariant
                i <= self.segments.len(),
                segments.len() == i,
                forall|j: int| 0 <= j < i ==> (#[trigger] segments@[j])@ == self.segments@[j]@,
            decreases self.segments.len() - i,
        {
            let one = match &self.segments[i] {
                Segment::Star => Segment::Star,
                Segment::DoubleStar => Segment::DoubleStar,
                Segment::Question => Segment::Question,
                Segment::Literal(b) => Segment::Literal(vstd::slice::slice_to_vec(b.as_slice())),
                Segment::CharClass { chars, negated } => Segment::CharClass {
                    chars: vstd::slice::slice_to_vec(chars.as_slice()),
                    negated: *negated,
                },
            };
            segments.push(one);
            i = i + 1;
        }
        assert(segment_views(segments@) =~= segment_views(self.segments@));
        Pattern {
            source: self.source.clone(),
            anchored: self.anchored,
            dir_only: self.dir_only,
            segments,
        }
    }

    /// The original pattern source.
    pub fn source(&self) -> (r: &str)
        ensures
            r@ == self@.source,
    {
        self.source.as_str()
    }

    /// Whether this pattern only matches directories.
    pub fn dir_only(&self) -> (r: bool)
        ensures
            r == self@.dir_only,
    {
        self.dir_only
    }
}

/// Appends the bytes from one to another.
fn push_span(out: &mut Vec<u8>, lo: u8, hi: u8)
    ensures
        final(out)@ == old(out)@ + byte_span(lo, hi),
{
    let ghost had = out@;
    let mut c: u16 = lo as u16;
    while c <= hi as u16
        invariant
            lo <= c,
            lo <= hi ==> c <= hi + 1,
            lo > hi ==> c == lo,
            out@ == had + byte_span(lo, hi).take(c - lo),
        decreases hi + 1 - c,
    {
        let ghost t = byte_span(lo, hi);
        out.push(c as u8);
        proof {
            assert(t[c - lo] == c as u8);
            assert(t.take(c - lo + 1) =~= t.take(c - lo).push(c as u8));
        }
        c = c + 1;
    }
    proof {
        let t = byte_span(lo, hi);
        assert(t.take(c - lo) =~= t);
    }
}

/// Whether a byte occurs.
pub fn has_byte(s: &[u8], b: u8) -> (r: bool)
    ensures
        r == s@.contains(b),
{
    let mut i: usize = 0;
    while i < s.len()
        invariant
            i <= s.len(),
            forall|j: int| 0 <= j < i ==> s@[j] != b,
        decreases s.len() - i,
    {
        if s[i] == b {
            assert(s@[i as int] == b);
            return true;
        }
        i = i + 1;
    }
    false
}

/// Whether a character occurs.
fn has_char(s: &[char], c: char) -> (r: bool)
    ensures
        r == s@.contains(c),
{
    let mut i: usize = 0;
    while i < s.len()
        invariant
            i <= s.len(),
            forall|j: int| 0 <= j < i ==> s@[j] != c,
        decreases s.len() - i,
    {
        if s[i] == c {
            assert(s@[i as int] == c);
            return true;
        }
        i = i + 1;
    }
    false
}

} // verus!

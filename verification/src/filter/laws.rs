//! What patterns mean.
//!
//! A pattern is read as a row of parts, and a text matches where it can be cut
//! into pieces, one for each part. The laws say which piece each wildcard takes,
//! and what slashes at the ends of a pattern change.

use vstd::prelude::*;
use vstd::utf8::encode_utf8;

use crate::filelist::entry::{last_slash, last_slash_is_last};
use crate::filter::pattern::{
    class_bytes, class_negated, literal_end, parts_from, parts_match, pattern_matches, pattern_of,
    SegmentView,
};

verus! {

// ---------------------------------------------------------------------------
// Parts and pieces
// ---------------------------------------------------------------------------

/// A piece of a text is one that a part stands for.
pub open spec fn stands_for(part: SegmentView, piece: Seq<u8>) -> bool {
    match part {
        SegmentView::Literal(bytes) => piece == bytes,
        SegmentView::Star => !piece.contains(0x2Fu8),
        SegmentView::DoubleStar => true,
        SegmentView::Question => piece.len() == 1 && piece[0] != 0x2F,
        SegmentView::CharClass { chars, negated: false } => piece.len() == 1 && chars.contains(
            piece[0],
        ),
        SegmentView::CharClass { chars, negated: true } => piece.len() == 1 && !chars.contains(
            piece[0],
        ),
    }
}

/// Pieces put together.
pub open spec fn glued(pieces: Seq<Seq<u8>>) -> Seq<u8>
    decreases pieces.len(),
{
    if pieces.len() == 0 {
        Seq::empty()
    } else {
        pieces[0] + glued(pieces.skip(1))
    }
}

/// A text is cut into pieces, one for each part from a place on.
pub open spec fn cut_into(
    parts: Seq<SegmentView>,
    k: int,
    text: Seq<u8>,
    pieces: Seq<Seq<u8>>,
) -> bool {
    &&& pieces.len() == parts.len() - k
    &&& glued(pieces) == text
    &&& forall|j: int| 0 <= j < pieces.len() ==> stands_for(parts[k + j], #[trigger] pieces[j])
}

/// Parts match a text exactly where it can be cut into pieces that they stand
/// for, in order.
pub proof fn matching_is_cutting(parts: Seq<SegmentView>, text: Seq<u8>)
    ensures
        parts_match(parts, 0, text) <==> exists|pieces: Seq<Seq<u8>>|
            cut_into(parts, 0, text, pieces),
{
    if parts_match(parts, 0, text) {
        let pieces = pieces_of(parts, 0, text);
        assert(cut_into(parts, 0, text, pieces));
    }
    if exists|pieces: Seq<Seq<u8>>| cut_into(parts, 0, text, pieces) {
        let pieces = choose|pieces: Seq<Seq<u8>>| cut_into(parts, 0, text, pieces);
        pieces_match(parts, 0, text, pieces);
    }
}

proof fn pieces_of(parts: Seq<SegmentView>, k: int, text: Seq<u8>) -> (pieces: Seq<Seq<u8>>)
    requires
        0 <= k <= parts.len(),
        parts_match(parts, k, text),
    ensures
        cut_into(parts, k, text, pieces),
    decreases parts.len() - k,
{
    if k == parts.len() {
        assert(glued(Seq::empty()) =~= text);
        Seq::empty()
    } else {
        let n: int = match parts[k] {
            SegmentView::Literal(lit) => lit.len() as int,
            SegmentView::Star => choose|i: int|
                0 <= i <= text.len() && (forall|j: int| 0 <= j < i ==> text[j] != 0x2F)
                    && parts_match(parts, k + 1, #[trigger] text.skip(i)),
            SegmentView::DoubleStar => choose|i: int|
                0 <= i <= text.len() && parts_match(parts, k + 1, #[trigger] text.skip(i)),
            _ => 1,
        };
        let first = text.take(n);
        let rest = pieces_of(parts, k + 1, text.skip(n));
        let all = seq![first] + rest;
        assert(all.skip(1) =~= rest);
        assert(first + text.skip(n) =~= text);
        assert forall|j: int| 0 <= j < all.len() implies stands_for(
            parts[k + j],
            #[trigger] all[j],
        ) by {
            if j > 0 {
                assert(all[j] == rest[j - 1]);
                assert(stands_for(parts[(k + 1) + (j - 1)], rest[j - 1]));
            }
        }
        all
    }
}

proof fn pieces_match(parts: Seq<SegmentView>, k: int, text: Seq<u8>, pieces: Seq<Seq<u8>>)
    requires
        0 <= k <= parts.len(),
        cut_into(parts, k, text, pieces),
    ensures
        parts_match(parts, k, text),
    decreases parts.len() - k,
{
    if k < parts.len() {
        let first = pieces[0];
        let rest = pieces.skip(1);
        let n = first.len() as int;
        assert(stands_for(parts[k + 0], first));
        assert(text.take(n) =~= first);
        assert(text.skip(n) =~= glued(rest));
        assert forall|j: int| 0 <= j < rest.len() implies stands_for(
            parts[k + 1 + j],
            #[trigger] rest[j],
        ) by {
            assert(rest[j] == pieces[j + 1]);
            assert(stands_for(parts[k + (j + 1)], pieces[j + 1]));
        }
        pieces_match(parts, k + 1, text.skip(n), rest);
        assert forall|j: int| 0 <= j < n implies text[j] == first[j] by {}
        if n == 1 {
            assert(text[0] == first[0]);
        }
        if parts[k] is Star {
            assert forall|j: int| 0 <= j < n implies text[j] != 0x2F by {
                assert(first.contains(first[j]));
            }
        }
    }
}

// ---------------------------------------------------------------------------
// One wildcard between plain bytes
// ---------------------------------------------------------------------------

/// Bytes that stand for themselves in a pattern.
pub open spec fn all_plain(s: Seq<u8>) -> bool {
    forall|i: int| 0 <= i < s.len() ==> s[i] != 0x2A && s[i] != 0x3F && s[i] != 0x5B
}

/// A text is one piece between a beginning and an end.
pub open spec fn between(a: Seq<u8>, m: Seq<u8>, b: Seq<u8>, text: Seq<u8>) -> bool {
    text == a + m + b
}

/// The parts of plain bytes: one, or none where there are no bytes.
spec fn plain_parts(s: Seq<u8>) -> Seq<SegmentView> {
    if s.len() == 0 {
        Seq::empty()
    } else {
        seq![SegmentView::Literal(s)]
    }
}

proof fn plain_end(pat: Seq<u8>, i: int, e: int)
    requires
        0 <= i <= e <= pat.len(),
        all_plain(pat.subrange(i, e)),
        e == pat.len() || pat[e] == 0x2A || pat[e] == 0x3F || pat[e] == 0x5B,
    ensures
        literal_end(pat, i) == e,
    decreases e - i,
{
    if i < e {
        assert(pat.subrange(i, e)[0] == pat[i]);
        assert(pat.subrange(i + 1, e) =~= pat.subrange(i, e).skip(1));
        plain_end(pat, i + 1, e);
    }
}

/// Plain bytes from a place to another become one part.
proof fn plain_then(pat: Seq<u8>, i: int, e: int)
    requires
        0 <= i <= e <= pat.len(),
        all_plain(pat.subrange(i, e)),
        e == pat.len() || pat[e] == 0x2A || pat[e] == 0x3F || pat[e] == 0x5B,
        parts_from(pat, e) is Ok,
    ensures
        parts_from(pat, i) == Ok::<Seq<SegmentView>, int>(
            plain_parts(pat.subrange(i, e)) + parts_from(pat, e)->Ok_0,
        ),
{
    if i < e {
        plain_end(pat, i, e);
        assert(pat.subrange(i, e)[0] == pat[i]);
    } else {
        assert(plain_parts(pat.subrange(i, e)) + parts_from(pat, e)->Ok_0 =~= parts_from(
            pat,
            e,
        )->Ok_0);
    }
}

/// The parts of a wildcard between plain bytes.
proof fn one_between(pat: Seq<u8>, a: Seq<u8>, w: Seq<u8>, b: Seq<u8>, part: SegmentView)
    requires
        pat == a + w + b,
        all_plain(a),
        all_plain(b),
        w.len() > 0,
        w[0] == 0x2A || w[0] == 0x3F || w[0] == 0x5B,
        parts_from(pat, (a + w).len() as int) is Ok ==> parts_from(pat, a.len() as int) == Ok::<
            Seq<SegmentView>,
            int,
        >(seq![part] + parts_from(pat, (a + w).len() as int)->Ok_0),
    ensures
        parts_from(pat, 0) == Ok::<Seq<SegmentView>, int>(
            plain_parts(a) + (seq![part] + plain_parts(b)),
        ),
{
    let n = pat.len() as int;
    let p = a.len() as int;
    let q = (a + w).len() as int;
    assert(pat.subrange(q, n) =~= b);
    assert(pat.subrange(0, p) =~= a);
    assert(parts_from(pat, n) == Ok::<Seq<SegmentView>, int>(Seq::empty()));
    plain_then(pat, q, n);
    assert(plain_parts(b) + Seq::<SegmentView>::empty() =~= plain_parts(b));
    assert(pat[p] == w[0]);
    plain_then(pat, 0, p);
}

proof fn glued_few(ps: Seq<Seq<u8>>)
    ensures
        ps.len() == 1 ==> glued(ps) == ps[0],
        ps.len() == 2 ==> glued(ps) == ps[0] + ps[1],
        ps.len() == 3 ==> glued(ps) == ps[0] + (ps[1] + ps[2]),
{
    reveal_with_fuel(glued, 4);
    if 1 <= ps.len() <= 3 {
        let t = ps.skip(1);
        if ps.len() >= 2 {
            assert(t[0] == ps[1]);
            let u = t.skip(1);
            if ps.len() == 3 {
                assert(u[0] == ps[2]);
                assert(glued(u) =~= ps[2]);
            }
            assert(ps.len() == 2 ==> glued(t) =~= ps[1]);
        }
        assert(ps.len() == 1 ==> glued(ps) =~= ps[0]);
    }
}

/// What such parts match.
proof fn between_is_matched(
    parts: Seq<SegmentView>,
    a: Seq<u8>,
    part: SegmentView,
    b: Seq<u8>,
    text: Seq<u8>,
)
    requires
        parts == plain_parts(a) + (seq![part] + plain_parts(b)),
    ensures
        parts_match(parts, 0, text) <==> exists|m: Seq<u8>|
            stands_for(part, m) && #[trigger] between(a, m, b, text),
{
    let x = plain_parts(a).len() as int;
    assert(parts[x] == part);
    if a.len() > 0 {
        assert(parts[0] == SegmentView::Literal(a));
    }
    if b.len() > 0 {
        assert(parts[x + 1] == SegmentView::Literal(b));
    }
    if parts_match(parts, 0, text) {
        let ps = pieces_of(parts, 0, text);
        assert(stands_for(parts[0 + x], ps[x]));
        if a.len() > 0 {
            assert(stands_for(parts[0int + 0int], ps[0]));
        }
        if b.len() > 0 {
            assert(stands_for(parts[0 + (x + 1)], ps[x + 1]));
        }
        glued_few(ps);
        assert(text =~= a + ps[x] + b);
        assert(between(a, ps[x], b, text));
    }
    if exists|m: Seq<u8>| stands_for(part, m) && #[trigger] between(a, m, b, text) {
        let m = choose|m: Seq<u8>| stands_for(part, m) && #[trigger] between(a, m, b, text);
        let ps = (if a.len() > 0 {
            seq![a]
        } else {
            Seq::empty()
        }) + (seq![m] + (if b.len() > 0 {
            seq![b]
        } else {
            Seq::empty()
        }));
        glued_few(ps);
        assert(glued(ps) =~= text);
        assert forall|j: int| 0 <= j < ps.len() implies stands_for(parts[0 + j], #[trigger] ps[j]) by {
        }
        pieces_match(parts, 0, text, ps);
    }
}

/// A pattern without slashes at its ends.
pub open spec fn bare(s: Seq<char>) -> bool {
    s.len() > 0 && s[0] != '/' && s.last() != '/'
}

/// The last component of a path.
pub open spec fn ends_in(path: Seq<u8>, dir: Seq<u8>, tail: Seq<u8>) -> bool {
    path == dir + seq![0x2Fu8] + tail && !tail.contains(0x2Fu8)
}

proof fn last_slash_of(path: Seq<u8>, dir: Seq<u8>, tail: Seq<u8>)
    requires
        ends_in(path, dir, tail),
    ensures
        last_slash(path) == dir.len(),
        path.skip(last_slash(path) + 1) == tail,
{
    last_slash_is_last(path);
    let n = dir.len() as int;
    assert(path[n] == 0x2F);
    if last_slash(path) > n {
        let j = last_slash(path) - n - 1;
        assert(tail[j] == path[last_slash(path)]);
        assert(tail.contains(0x2Fu8));
    }
    assert(path.skip(n + 1) =~= tail);
}

proof fn has_last_part(path: Seq<u8>)
    requires
        last_slash(path) >= 0,
    ensures
        ends_in(path, path.take(last_slash(path)), path.skip(last_slash(path) + 1)),
{
    last_slash_is_last(path);
    let n = last_slash(path);
    let t = path.skip(n + 1);
    assert(path =~= path.take(n) + seq![0x2Fu8] + t);
    assert forall|j: int| 0 <= j < t.len() implies t[j] != 0x2F by {
        assert(t[j] == path[n + 1 + j]);
    }
}

/// What a pattern of one wildcard matches, where the wildcard becomes a part.
proof fn wildcard_between(
    s: Seq<char>,
    a: Seq<u8>,
    w: Seq<u8>,
    b: Seq<u8>,
    part: SegmentView,
    path: Seq<u8>,
    is_dir: bool,
)
    requires
        bare(s),
        encode_utf8(s) == a + w + b,
        all_plain(a),
        all_plain(b),
        w.len() > 0,
        w[0] == 0x2A || w[0] == 0x3F || w[0] == 0x5B,
        parts_from(a + w + b, (a + w).len() as int) is Ok ==> parts_from(a + w + b, a.len() as int)
            == Ok::<Seq<SegmentView>, int>(
            seq![part] + parts_from(a + w + b, (a + w).len() as int)->Ok_0,
        ),
    ensures
        pattern_of(s) is Ok,
        pattern_matches(pattern_of(s)->Ok_0, path, is_dir) <==> (exists|m: Seq<u8>|
            stands_for(part, m) && #[trigger] between(a, m, b, path)) || (!s.contains('/')
            && exists|dir: Seq<u8>, tail: Seq<u8>, m: Seq<u8>|
            stands_for(part, m) && #[trigger] ends_in(path, dir, tail) && #[trigger] between(
                a,
                m,
                b,
                tail,
            )),
{
    let pat = a + w + b;
    one_between(pat, a, w, b, part);
    let p = pattern_of(s)->Ok_0;
    between_is_matched(p.segments, a, part, b, path);
    if last_slash(path) >= 0 {
        let tail = path.skip(last_slash(path) + 1);
        between_is_matched(p.segments, a, part, b, tail);
        has_last_part(path);
    }
    if exists|dir: Seq<u8>, tail: Seq<u8>, m: Seq<u8>|
        stands_for(part, m) && #[trigger] ends_in(path, dir, tail) && #[trigger] between(
            a,
            m,
            b,
            tail,
        ) {
        let (dir, tail, m) = choose|dir: Seq<u8>, tail: Seq<u8>, m: Seq<u8>|
            stands_for(part, m) && #[trigger] ends_in(path, dir, tail) && #[trigger] between(
                a,
                m,
                b,
                tail,
            );
        last_slash_of(path, dir, tail);
    }
}

/// A star between plain bytes takes any bytes but a slash. Such a pattern
/// matches a path, or where it holds no slash a last component, exactly if that
/// begins with the bytes before the star, ends with those behind it, and holds no
/// slash between them.
pub proof fn star_stops_at_slashes(
    s: Seq<char>,
    a: Seq<u8>,
    b: Seq<u8>,
    path: Seq<u8>,
    is_dir: bool,
)
    requires
        bare(s),
        encode_utf8(s) == a + seq![0x2Au8] + b,
        all_plain(a),
        all_plain(b),
    ensures
        pattern_of(s) is Ok,
        pattern_matches(pattern_of(s)->Ok_0, path, is_dir) <==> (exists|m: Seq<u8>|
            !m.contains(0x2Fu8) && #[trigger] between(a, m, b, path)) || (!s.contains('/')
            && exists|dir: Seq<u8>, tail: Seq<u8>, m: Seq<u8>|
            !m.contains(0x2Fu8) && #[trigger] ends_in(path, dir, tail) && #[trigger] between(
                a,
                m,
                b,
                tail,
            )),
{
    let w = seq![0x2Au8];
    let pat = a + w + b;
    assert(pat[a.len() as int] == 0x2A);
    if b.len() > 0 {
        assert(pat[a.len() as int + 1] == b[0]);
    }
    wildcard_between(s, a, w, b, SegmentView::Star, path, is_dir);
}

/// Two stars between plain bytes take any bytes at all, and with them the slash
/// that may follow.
pub proof fn two_stars_take_slashes(
    s: Seq<char>,
    a: Seq<u8>,
    slash: bool,
    b: Seq<u8>,
    path: Seq<u8>,
    is_dir: bool,
)
    requires
        bare(s),
        encode_utf8(s) == a + (if slash {
            seq![0x2Au8, 0x2Au8, 0x2Fu8]
        } else {
            seq![0x2Au8, 0x2Au8]
        }) + b,
        !slash && b.len() > 0 ==> b[0] != 0x2F,
        all_plain(a),
        all_plain(b),
    ensures
        pattern_of(s) is Ok,
        pattern_matches(pattern_of(s)->Ok_0, path, is_dir) <==> (exists|m: Seq<u8>| #[trigger]
            between(a, m, b, path)) || (!s.contains('/') && exists|
            dir: Seq<u8>,
            tail: Seq<u8>,
            m: Seq<u8>,
        |
            #[trigger] ends_in(path, dir, tail) && #[trigger] between(a, m, b, tail)),
{
    let w = if slash {
        seq![0x2Au8, 0x2Au8, 0x2Fu8]
    } else {
        seq![0x2Au8, 0x2Au8]
    };
    let pat = a + w + b;
    let p = a.len() as int;
    assert(pat[p] == 0x2A);
    assert(pat[p + 1] == 0x2A);
    if slash {
        assert(pat[p + 2] == 0x2F);
    } else if b.len() > 0 {
        assert(pat[p + 2] == b[0]);
    }
    wildcard_between(s, a, w, b, SegmentView::DoubleStar, path, is_dir);
}

/// A question mark between plain bytes takes one byte that is no slash.
pub proof fn question_mark_takes_one_byte(
    s: Seq<char>,
    a: Seq<u8>,
    b: Seq<u8>,
    path: Seq<u8>,
    is_dir: bool,
)
    requires
        bare(s),
        encode_utf8(s) == a + seq![0x3Fu8] + b,
        all_plain(a),
        all_plain(b),
    ensures
        pattern_of(s) is Ok,
        pattern_matches(pattern_of(s)->Ok_0, path, is_dir) <==> (exists|m: Seq<u8>|
            m.len() == 1 && m[0] != 0x2F && #[trigger] between(a, m, b, path)) || (!s.contains('/')
            && exists|dir: Seq<u8>, tail: Seq<u8>, m: Seq<u8>|
            m.len() == 1 && m[0] != 0x2F && #[trigger] ends_in(path, dir, tail)
                && #[trigger] between(a, m, b, tail)),
{
    let w = seq![0x3Fu8];
    let pat = a + w + b;
    assert(pat[a.len() as int] == 0x3F);
    wildcard_between(s, a, w, b, SegmentView::Question, path, is_dir);
}

proof fn class_of_bytes(pat: Seq<u8>, i: int, e: int)
    requires
        0 <= i <= e < pat.len(),
        pat[e] == 0x5D,
        forall|j: int| i <= j < e ==> pat[j] != 0x5D && pat[j] != 0x2D,
    ensures
        class_bytes(pat, i) == (pat.subrange(i, e), e),
    decreases e - i,
{
    if i < e {
        class_of_bytes(pat, i + 1, e);
        assert(seq![pat[i]] + pat.subrange(i + 1, e) =~= pat.subrange(i, e));
        if i + 1 < e {
            assert(pat[i + 1] != 0x2D);
        }
    } else {
        assert(pat.subrange(i, e) =~= Seq::empty());
    }
}

/// A class between plain bytes takes one of the bytes that it lists; one that
/// begins with `!` or `^` takes one of the others.
pub proof fn class_takes_a_listed_byte(
    s: Seq<char>,
    a: Seq<u8>,
    mark: Option<u8>,
    listed: Seq<u8>,
    b: Seq<u8>,
    path: Seq<u8>,
    is_dir: bool,
)
    requires
        bare(s),
        encode_utf8(s) == a + (match mark {
            Some(c) => seq![0x5Bu8, c],
            None => seq![0x5Bu8],
        } + listed + seq![0x5Du8]) + b,
        mark is Some ==> mark->0 == 0x21 || mark->0 == 0x5E,
        mark is None && listed.len() > 0 ==> listed[0] != 0x21 && listed[0] != 0x5E,
        forall|j: int| 0 <= j < listed.len() ==> listed[j] != 0x5D && listed[j] != 0x2D,
        all_plain(a),
        all_plain(b),
    ensures
        pattern_of(s) is Ok,
        pattern_matches(pattern_of(s)->Ok_0, path, is_dir) <==> (exists|m: Seq<u8>|
            m.len() == 1 && (listed.contains(m[0]) <==> mark is None) && #[trigger] between(
                a,
                m,
                b,
                path,
            )) || (!s.contains('/') && exists|dir: Seq<u8>, tail: Seq<u8>, m: Seq<u8>|
            m.len() == 1 && (listed.contains(m[0]) <==> mark is None) && #[trigger] ends_in(
                path,
                dir,
                tail,
            ) && #[trigger] between(a, m, b, tail)),
{
    let head = match mark {
        Some(c) => seq![0x5Bu8, c],
        None => seq![0x5Bu8],
    };
    let w = head + listed + seq![0x5Du8];
    let pat = a + w + b;
    let p = a.len() as int;
    let i = p + head.len();
    let e = i + listed.len();
    assert(pat[p] == 0x5B);
    assert(pat[e] == 0x5D);
    assert(pat.subrange(i, e) =~= listed);
    assert forall|j: int| i <= j < e implies pat[j] != 0x5D && pat[j] != 0x2D by {
        assert(pat[j] == listed[j - i]);
    }
    match mark {
        Some(c) => {
            assert(pat[p + 1] == c);
        },
        None => {
            if listed.len() > 0 {
                assert(pat[p + 1] == listed[0]);
            } else {
                assert(pat[p + 1] == 0x5D);
            }
        },
    }
    assert(class_negated(pat, p) == (mark is Some));
    class_of_bytes(pat, i, e);
    assert((a + w).len() == e + 1);
    let part = SegmentView::CharClass { chars: listed, negated: mark is Some };
    wildcard_between(s, a, w, b, part, path, is_dir);
    assert forall|m: Seq<u8>| #![trigger between(a, m, b, path)] stands_for(part, m) <==> (m.len() == 1 && (
    listed.contains(m[0]) <==> mark is None)) by {}
    assert forall|tail: Seq<u8>, m: Seq<u8>| #![trigger between(a, m, b, tail)] stands_for(part, m) <==> (m.len()
        == 1 && (listed.contains(m[0]) <==> mark is None)) by {}
}

/// A range in a class takes every byte from its first to its last.
pub proof fn range_takes_what_lies_between(
    s: Seq<char>,
    a: Seq<u8>,
    lo: u8,
    hi: u8,
    b: Seq<u8>,
    path: Seq<u8>,
    is_dir: bool,
)
    requires
        bare(s),
        encode_utf8(s) == a + seq![0x5Bu8, lo, 0x2Du8, hi, 0x5Du8] + b,
        lo != 0x21 && lo != 0x5E && lo != 0x5D,
        all_plain(a),
        all_plain(b),
    ensures
        pattern_of(s) is Ok,
        pattern_matches(pattern_of(s)->Ok_0, path, is_dir) <==> (exists|m: Seq<u8>|
            m.len() == 1 && lo <= m[0] <= hi && #[trigger] between(a, m, b, path)) || (!s.contains(
            '/',
        ) && exists|dir: Seq<u8>, tail: Seq<u8>, m: Seq<u8>|
            m.len() == 1 && lo <= m[0] <= hi && #[trigger] ends_in(path, dir, tail)
                && #[trigger] between(a, m, b, tail)),
{
    let w = seq![0x5Bu8, lo, 0x2Du8, hi, 0x5Du8];
    let pat = a + w + b;
    let p = a.len() as int;
    assert(pat[p] == 0x5B && pat[p + 1] == lo && pat[p + 2] == 0x2D && pat[p + 3] == hi && pat[p
        + 4] == 0x5D);
    let chars = class_bytes(pat, p + 1).0;
    assert(class_bytes(pat, p + 4) == (Seq::<u8>::empty(), p + 4));
    let part = SegmentView::CharClass { chars, negated: false };
    assert forall|c: u8| chars.contains(c) <==> lo <= c <= hi by {
        if lo <= c <= hi {
            assert(chars[c - lo] == c);
        }
    }
    wildcard_between(s, a, w, b, part, path, is_dir);
    assert forall|m: Seq<u8>| #![trigger between(a, m, b, path)] stands_for(part, m) <==> (m.len() == 1 && lo
        <= m[0] <= hi) by {}
    assert forall|tail: Seq<u8>, m: Seq<u8>| #![trigger between(a, m, b, tail)] stands_for(part, m) <==> (m.len()
        == 1 && lo <= m[0] <= hi) by {}
}

proof fn class_without_end(pat: Seq<u8>, i: int)
    requires
        0 <= i,
        forall|j: int| i <= j < pat.len() ==> pat[j] != 0x5D,
    ensures
        class_bytes(pat, i).1 >= pat.len(),
    decreases pat.len() - i,
{
    if i < pat.len() {
        class_without_end(pat, i + 1);
        if i + 3 <= pat.len() {
            class_without_end(pat, i + 3);
        }
    }
}

/// A class that does not end makes no pattern.
pub proof fn open_class_is_no_pattern(s: Seq<char>, a: Seq<u8>, rest: Seq<u8>)
    requires
        bare(s),
        encode_utf8(s) == a + seq![0x5Bu8] + rest,
        all_plain(a),
        !rest.contains(0x5Du8),
    ensures
        pattern_of(s) is Err,
{
    let pat = a + seq![0x5Bu8] + rest;
    let p = a.len() as int;
    assert(pat[p] == 0x5B);
    assert forall|j: int| p + 1 <= j < pat.len() implies pat[j] != 0x5D by {
        assert(pat[j] == rest[j - p - 1]);
        assert(rest.contains(rest[j - p - 1]));
    }
    class_without_end(pat, p + 1);
    class_without_end(pat, p + 2);
    assert(parts_from(pat, p) is Err);
    if p > 0 {
        assert(pat.subrange(0, p) =~= a);
        plain_end(pat, 0, p);
        assert(pat[0] == a[0]);
    }
}

// ---------------------------------------------------------------------------
// Slashes at the ends
// ---------------------------------------------------------------------------

/// A slash behind a pattern confines it to directories; of those it matches the
/// same ones.
pub proof fn trailing_slash_means_directories(s: Seq<char>, path: Seq<u8>)
    requires
        bare(s),
        pattern_of(s) is Ok,
    ensures
        pattern_of(s.push('/')) is Ok,
        !pattern_matches(pattern_of(s.push('/'))->Ok_0, path, false),
        pattern_matches(pattern_of(s.push('/'))->Ok_0, path, true) == pattern_matches(
            pattern_of(s)->Ok_0,
            path,
            true,
        ),
        pattern_matches(pattern_of(s)->Ok_0, path, true) == pattern_matches(
            pattern_of(s)->Ok_0,
            path,
            false,
        ),
{
    assert(s.push('/').drop_last() =~= s);
}

/// A slash before a pattern confines it to whole paths. Without one, and without
/// a slash inside, it matches a last component as well.
pub proof fn leading_slash_means_whole_paths(s: Seq<char>, path: Seq<u8>, is_dir: bool)
    requires
        bare(s),
        pattern_of(s) is Ok,
    ensures
        pattern_of(seq!['/'] + s) is Ok,
        ({
            let anchored = pattern_of(seq!['/'] + s)->Ok_0;
            let free = pattern_of(s)->Ok_0;
            &&& s.contains('/') ==> (pattern_matches(free, path, is_dir) <==> pattern_matches(
                anchored,
                path,
                is_dir,
            ))
            &&& !s.contains('/') ==> (pattern_matches(free, path, is_dir) <==> pattern_matches(
                anchored,
                path,
                is_dir,
            ) || exists|dir: Seq<u8>, tail: Seq<u8>| #[trigger]
                ends_in(path, dir, tail) && pattern_matches(anchored, tail, is_dir))
        }),
{
    let t = seq!['/'] + s;
    assert(t.skip(1) =~= s);
    if last_slash(path) >= 0 {
        has_last_part(path);
    }
    if exists|dir: Seq<u8>, tail: Seq<u8>| #[trigger]
        ends_in(path, dir, tail) && pattern_matches(pattern_of(t)->Ok_0, tail, is_dir) {
        let (dir, tail) = choose|dir: Seq<u8>, tail: Seq<u8>| #[trigger]
            ends_in(path, dir, tail) && pattern_matches(pattern_of(t)->Ok_0, tail, is_dir);
        last_slash_of(path, dir, tail);
    }
}

} // verus!

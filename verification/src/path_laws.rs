//! How paths are put together and taken apart.

use vstd::prelude::*;

use vstd::utf8::{encode_utf8, valid_utf8};

use crate::engine::file_decision::{backup_steps, leads_out, unsafe_target};
use crate::filelist::entry::{last_slash, valid_text_is_kept, without_trailing};
use crate::filelist::entry_laws::{
    last_component_is_the_name, paths_split_at_the_last_slash, without_slash,
};
use crate::fs::plan::FsActionView;
use crate::path::{component_end, components, joined, parent_of, renamed, same_path};
use crate::text::lossy_text;

verus! {

/// A name below a directory stands behind one slash. An absolute path stands for
/// itself, and so does anything below the empty path.
pub proof fn paths_are_joined_by_one_slash(base: Seq<u8>, p: Seq<u8>)
    ensures
        p.len() > 0 && p[0] == 0x2F ==> joined(base, p) == p,
        joined(Seq::empty(), p) == p,
        base.len() > 0 && base.last() != 0x2F && (p.len() == 0 || p[0] != 0x2F) ==> joined(base, p)
            == base + seq![0x2Fu8] + p,
        base.len() > 0 && base.last() == 0x2F && (p.len() == 0 || p[0] != 0x2F) ==> joined(base, p)
            == base + p,
{
}

/// A directory's path: not empty, and without a slash or a lone dot at its end.
pub open spec fn plain_dir(d: Seq<u8>) -> bool {
    &&& d.len() > 0
    &&& d.last() != 0x2F
    &&& !(d.len() >= 2 && d.last() == 0x2E && d[d.len() - 2] == 0x2F)
}

/// A name that may stand in a directory.
pub open spec fn plain_name(b: Seq<u8>) -> bool {
    without_slash(b) && b.len() > 0 && b != seq![0x2Eu8] && b != seq![0x2Eu8, 0x2Eu8]
}

/// What stands in a directory has it as its parent. A name alone lies in the
/// empty path, and a name below the root lies in the root.
pub proof fn parent_is_the_directory(d: Seq<u8>, b: Seq<u8>)
    requires
        plain_dir(d),
        plain_name(b),
    ensures
        parent_of(d + seq![0x2Fu8] + b) == Some(d),
        parent_of(b) == Some(Seq::<u8>::empty()),
        parent_of(seq![0x2Fu8] + b) == Some(seq![0x2Fu8]),
        parent_of(Seq::<u8>::empty()) is None,
{
    let p = d + seq![0x2Fu8] + b;
    name_ends(d, b);
    paths_split_at_the_last_slash(d, b);
    crate::filelist::entry::last_slash_is_last(p);
    crate::filelist::entry::last_slash_is_last(b);
    assert(last_slash(p) == d.len()) by {
        assert(p[d.len() as int] == 0x2F);
        if last_slash(p) > d.len() {
            assert(p[last_slash(p)] == b[last_slash(p) - d.len() - 1]);
        }
    }
    let head = p.take(last_slash(p) + 1);
    assert(head =~= d.push(0x2F));
    assert(head.drop_last() =~= d);
    assert(without_trailing(d) == d);
    assert(without_trailing(head) == d);
    assert(b.take(0) =~= Seq::<u8>::empty());
    let e = Seq::<u8>::empty();
    assert(without_trailing(e) == e);
    assert(e.take(0) =~= e);
    let r = seq![0x2Fu8] + b;
    assert(r =~= e + seq![0x2Fu8] + b);
    name_ends(e, b);
    crate::filelist::entry::last_slash_is_last(r);
    assert(last_slash(r) == 0) by {
        assert(r[0] == 0x2F);
        if last_slash(r) > 0 {
            assert(r[last_slash(r)] == b[last_slash(r) - 1]);
        }
    }
    assert(r.take(1) =~= seq![0x2Fu8]);
    assert(seq![0x2Fu8].drop_last() =~= e);
    assert(without_trailing(seq![0x2Fu8]) == e);
    assert(seq![0x2Fu8].take(1) =~= seq![0x2Fu8]);
}

proof fn name_ends(d: Seq<u8>, b: Seq<u8>)
    requires
        plain_name(b),
    ensures
        without_trailing(d + seq![0x2Fu8] + b) == d + seq![0x2Fu8] + b,
        without_trailing(b) == b,
{
    let p = d + seq![0x2Fu8] + b;
    assert(p.last() == b.last());
    if p.last() == 0x2E && p[p.len() - 2] == 0x2F {
        if b.len() >= 2 {
            assert(p[p.len() - 2] == b[b.len() - 2]);
        }
        assert(b =~= seq![0x2Eu8]);
    }
    if b.len() >= 2 && b.last() == 0x2E && b[b.len() - 2] == 0x2F {
        assert(without_slash(b));
    }
}

/// Another name takes the place of the last one, in the same directory.
pub proof fn renaming_keeps_the_directory(d: Seq<u8>, b: Seq<u8>, n: Seq<u8>)
    requires
        plain_dir(d),
        plain_name(b),
        n.len() > 0,
        n[0] != 0x2F,
    ensures
        renamed(d + seq![0x2Fu8] + b, n) == d + seq![0x2Fu8] + n,
        renamed(b, n) == n,
{
    parent_is_the_directory(d, b);
    last_component_is_the_name(d, b, d);
}

/// The backup of a file is the file under its own name and the suffix, in its
/// directory or in the backup directory, which is made before.
pub proof fn backup_has_the_suffix(
    d: Seq<u8>,
    b: Seq<u8>,
    suffix: Seq<char>,
    dir: Seq<u8>,
)
    requires
        plain_dir(d),
        plain_name(b),
        valid_utf8(b),
        plain_dir(dir),
    ensures
        ({
            let path = d + seq![0x2Fu8] + b;
            let name = b + encode_utf8(suffix);
            let here = backup_steps(path, suffix, None);
            let there = backup_steps(path, suffix, Some(dir));
            &&& here.len() == 1
            &&& here[0].action == (FsActionView::Rename {
                from: path,
                to: d + seq![0x2Fu8] + name,
            })
            &&& there.len() == 2
            &&& there[0].action == (FsActionView::MakeDir { path: dir, mode: 0o755 })
            &&& there[1].action == (FsActionView::Rename {
                from: path,
                to: dir + seq![0x2Fu8] + name,
            })
        }),
{
    let name = b + encode_utf8(suffix);
    last_component_is_the_name(d, b, d);
    valid_text_is_kept(b);
    encoding_goes_on(lossy_text(b), suffix);
    assert(name[0] == b[0]);
    renaming_keeps_the_directory(d, b, name);
}

proof fn encoding_goes_on(a: Seq<char>, b: Seq<char>)
    ensures
        encode_utf8(a + b) == encode_utf8(a) + encode_utf8(b),
    decreases a.len(),
{
    if a.len() == 0 {
        assert(a + b =~= b);
        assert(encode_utf8(a) =~= Seq::<u8>::empty());
        assert(encode_utf8(a) + encode_utf8(b) =~= encode_utf8(b));
    } else {
        assert((a + b).drop_first() =~= a.drop_first() + b);
        encoding_goes_on(a.drop_first(), b);
        assert(encode_utf8(a + b) =~= encode_utf8(a) + encode_utf8(b));
    }
}

/// A path has one component more than what stands before its last slash, which is
/// what follows the slash; nothing or a dot there is none.
pub proof fn components_lie_between_slashes(a: Seq<u8>, c: Seq<u8>)
    requires
        without_slash(c),
    ensures
        c.len() > 0 && c != seq![0x2Eu8] ==> components(a + seq![0x2Fu8] + c, 0) == components(
            a,
            0,
        ).push(c),
        c.len() == 0 || c == seq![0x2Eu8] ==> components(a + seq![0x2Fu8] + c, 0) == components(
            a,
            0,
        ),
        c.len() > 0 ==> components(c, 0) == seq![c],
        components(Seq::<u8>::empty(), 0).len() == 0,
{
    component_added(a, c, 0);
    if c.len() > 0 {
        assert(c.skip(0) =~= c);
        component_whole(c, 0, c);
        assert(c.subrange(0, c.len() as int) =~= c);
        assert(components(c, c.len() as int + 1) =~= Seq::empty());
        assert(seq![c] + Seq::<Seq<u8>>::empty() =~= seq![c]);
    }
}

proof fn component_whole(t: Seq<u8>, k: int, c: Seq<u8>)
    requires
        0 <= k <= t.len(),
        t.skip(k) == c,
        without_slash(c),
    ensures
        component_end(t, k) == t.len(),
    decreases t.len() - k,
{
    if k < t.len() {
        assert(t.skip(k)[0] == t[k]);
        assert(t.skip(k + 1) =~= c.skip(1));
        component_whole(t, k + 1, c.skip(1));
    }
}

proof fn component_before(a: Seq<u8>, c: Seq<u8>, i: int)
    requires
        0 <= i <= a.len(),
    ensures
        component_end(a + seq![0x2Fu8] + c, i) == component_end(a, i),
        i <= component_end(a, i) <= a.len(),
    decreases a.len() - i,
{
    let s = a + seq![0x2Fu8] + c;
    if i == a.len() {
        assert(s[i] == 0x2F);
    } else {
        assert(s[i] == a[i]);
        if a[i] != 0x2F {
            component_before(a, c, i + 1);
        }
    }
}

proof fn component_added(a: Seq<u8>, c: Seq<u8>, i: int)
    requires
        0 <= i <= a.len() + 1,
        without_slash(c),
    ensures
        components(a + seq![0x2Fu8] + c, i) == (if c.len() > 0 && c != seq![0x2Eu8] {
            components(a, i).push(c)
        } else {
            components(a, i)
        }),
    decreases a.len() + 1 - i,
{
    let s = a + seq![0x2Fu8] + c;
    if i == a.len() + 1 {
        assert(s.skip(i) =~= c);
        if c.len() > 0 {
            component_whole(s, i, c);
            assert(s.subrange(i, s.len() as int) =~= c);
            assert(components(s, s.len() as int + 1) =~= Seq::empty());
            assert(s[i] == c[0]);
            if c.len() == 1 && c[0] == 0x2E {
                assert(c =~= seq![0x2Eu8]);
            }
            assert(seq![c] + Seq::<Seq<u8>>::empty() =~= Seq::empty().push(c));
        }
    } else {
        component_before(a, c, i);
        let e = component_end(a, i);
        crate::path::component_end_bound(s, i);
        assert(s.subrange(i, e) =~= a.subrange(i, e));
        component_added(a, c, e + 1);
        if i < a.len() {
            assert(s[i] == a[i]);
            let h = seq![a.subrange(i, e)];
            let rest = components(a, e + 1);
            assert(h + rest.push(c) =~= (h + rest).push(c));
        }
    }
}

/// Paths are the same where both or neither start at the root and their
/// components agree.
pub proof fn same_paths_have_the_same_parts(a: Seq<u8>, b: Seq<u8>)
    ensures
        same_path(a, b) <==> (a.len() > 0 && a[0] == 0x2F) == (b.len() > 0 && b[0] == 0x2F)
            && components(a, 0) == components(b, 0),
        same_path(a, a),
        same_path(a, b) == same_path(b, a),
{
}

/// A link that leads to an absolute path, or up before down, leaves its tree. A
/// detour through a directory and up again changes nothing, nor does a dot.
pub proof fn leading_up_leads_out(target: Seq<u8>, other: Seq<u8>, c: Seq<u8>, r: Seq<u8>)
    requires
        without_slash(c),
        c.len() > 0,
        c != seq![0x2Eu8],
        c != seq![0x2Eu8, 0x2Eu8],
    ensures
        ({
            let t = encode_utf8(lossy_text(target));
            let u = encode_utf8(lossy_text(other));
            &&& t.len() > 0 && t[0] == 0x2F ==> unsafe_target(target)
            &&& t == seq![0x2Eu8, 0x2Eu8] ==> unsafe_target(target)
            &&& t == seq![0x2Eu8, 0x2Eu8, 0x2Fu8] + r ==> unsafe_target(target)
            &&& t == c + seq![0x2Fu8, 0x2Eu8, 0x2Eu8, 0x2Fu8] + r && u == r && !(r.len() > 0 && r[0]
                == 0x2F) ==> unsafe_target(target) == unsafe_target(other)
            &&& t == seq![0x2Eu8, 0x2Fu8] + r && u == r && !(r.len() > 0 && r[0] == 0x2F)
                ==> unsafe_target(target) == unsafe_target(other)
            &&& t == c ==> !unsafe_target(target)
        }),
{
    let t = encode_utf8(lossy_text(target));
    let u = encode_utf8(lossy_text(other));
    let up = seq![0x2Eu8, 0x2Eu8];
    if t == up {
        assert(up.skip(0) =~= up);
        component_whole(t, 0, up);
        assert(t.subrange(0, 2) =~= up);
    }
    if t == seq![0x2Eu8, 0x2Eu8, 0x2Fu8] + r {
        component_before(up, r, 0);
        assert(t =~= up + seq![0x2Fu8] + r);
        assert(up.skip(0) =~= up);
        component_whole(up, 0, up);
        assert(t.subrange(0, 2) =~= up);
    }
    if t == c {
        assert(c.skip(0) =~= c);
        component_whole(c, 0, c);
        assert(c.subrange(0, c.len() as int) =~= c);
        assert(!leads_out(c, c.len() as int + 1, 1));
    }
    if t == seq![0x2Eu8, 0x2Fu8] + r && u == r && !(r.len() > 0 && r[0] == 0x2F) {
        let dot = seq![0x2Eu8];
        assert(t =~= dot + seq![0x2Fu8] + r);
        component_before(dot, r, 0);
        assert(dot.skip(0) =~= dot);
        component_whole(dot, 0, dot);
        assert(t.subrange(0, 1) =~= dot);
        assert(t.skip(2) =~= r);
        out_shifts(t, r, 2, 0, 0);
    }
    if t == c + seq![0x2Fu8, 0x2Eu8, 0x2Eu8, 0x2Fu8] + r && u == r && !(r.len() > 0 && r[0] == 0x2F) {
        let s = up + seq![0x2Fu8] + r;
        assert(t =~= c + seq![0x2Fu8] + s);
        component_before(c, s, 0);
        assert(c.skip(0) =~= c);
        component_whole(c, 0, c);
        assert(t.subrange(0, c.len() as int) =~= c);
        let k = c.len() as int + 1;
        assert(t.skip(k) =~= s);
        out_shifts(t, s, k, 0, 1);
        component_before(up, r, 0);
        assert(up.skip(0) =~= up);
        component_whole(up, 0, up);
        assert(s.subrange(0, 2) =~= up);
        assert(s.skip(3) =~= r);
        out_shifts(s, r, 3, 0, 0);
        assert(t[0] == c[0]);
    }
}

proof fn end_shifts(t: Seq<u8>, r: Seq<u8>, k: int, i: int)
    requires
        0 <= k,
        t.len() == k + r.len(),
        t.skip(k) == r,
        0 <= i <= r.len(),
    ensures
        component_end(t, k + i) == k + component_end(r, i),
    decreases r.len() - i,
{
    if i < r.len() {
        assert(r[i] == t.skip(k)[i]);
        if r[i] != 0x2F {
            end_shifts(t, r, k, i + 1);
        }
    }
}

proof fn out_shifts(t: Seq<u8>, r: Seq<u8>, k: int, i: int, depth: int)
    requires
        0 <= k,
        t.len() == k + r.len(),
        t.skip(k) == r,
        0 <= i,
    ensures
        leads_out(t, k + i, depth) == leads_out(r, i, depth),
    decreases r.len() + 1 - i,
{
    if i < r.len() {
        end_shifts(t, r, k, i);
        crate::path::component_end_bound(r, i);
        let e = component_end(r, i);
        assert(t.subrange(k + i, k + e) =~= r.subrange(i, e));
        out_shifts(
            t,
            r,
            k,
            e + 1,
            depth + crate::engine::file_decision::component_depth(r.subrange(i, e)),
        );
    }
}

} // verus!

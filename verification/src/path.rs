//! Paths as byte strings.
//!
//! Components are separated by `/`; a path that starts with one is absolute.

use vstd::prelude::*;

use crate::filelist::entry::{
    copy_bytes, file_name_of, find_last_slash, last_slash, last_slash_is_last, path_file_name, same_bytes,
    without_trailing,
};

verus! {

/// Whether a path starts at the root.
pub open spec fn is_absolute(p: Seq<u8>) -> bool {
    p.len() > 0 && p[0] == 0x2F
}

/// A path below another; an absolute path stands for itself.
pub open spec fn joined(base: Seq<u8>, p: Seq<u8>) -> Seq<u8> {
    if is_absolute(p) || base.len() == 0 {
        p
    } else if base.last() == 0x2F {
        base + p
    } else {
        base + seq![0x2Fu8] + p
    }
}

/// The path without its last component; the root and the empty path have none.
pub open spec fn parent_of(p: Seq<u8>) -> Option<Seq<u8>> {
    let t = without_trailing(p);
    if t.len() == 0 {
        None
    } else {
        let head = t.take(last_slash(t) + 1);
        let rest = without_trailing(head);
        Some(
            if rest.len() == 0 {
                head.take(if head.len() > 0 {
                    1
                } else {
                    0
                })
            } else {
                rest
            },
        )
    }
}

/// A path with another last component.
pub open spec fn renamed(p: Seq<u8>, name: Seq<u8>) -> Seq<u8> {
    match file_name_of(p) {
        Some(_) => match parent_of(p) {
            Some(d) => joined(d, name),
            None => joined(p, name),
        },
        None => joined(p, name),
    }
}

/// Whether a path starts at the root.
pub fn path_is_absolute(p: &[u8]) -> (r: bool)
    ensures
        r == is_absolute(p@),
{
    p.len() > 0 && p[0] == 0x2F
}

/// A path below another.
pub fn join_path(base: &[u8], p: &[u8]) -> (r: Vec<u8>)
    ensures
        r@ == joined(base@, p@),
{
    if path_is_absolute(p) || base.len() == 0 {
        return copy_bytes(p);
    }
    let mut out = copy_bytes(base);
    if base[base.len() - 1] != 0x2F {
        out.push(0x2F);
    }
    let mut tail = copy_bytes(p);
    let ghost head = out@;
    out.append(&mut tail);
    proof {
        if base@.last() == 0x2F {
            assert(out@ =~= base@ + p@);
        } else {
            assert(head =~= base@ + seq![0x2Fu8]);
        }
    }
    out
}

/// How much of a path is left without its trailing slashes and `/.`.
fn trimmed_len(s: &[u8]) -> (end: usize)
    ensures
        end <= s.len(),
        without_trailing(s@) == s@.take(end as int),
{
    let mut end: usize = s.len();
    assert(s@.take(s@.len() as int) =~= s@);
    loop
        invariant
            end <= s.len(),
            without_trailing(s@) == without_trailing(s@.take(end as int)),
        decreases end,
    {
        let ghost t = s@.take(end as int);
        if end > 0 {
            assert(t.last() == s@[end - 1]);
            assert(t.drop_last() =~= s@.take(end - 1));
            if end >= 2 {
                assert(t[t.len() - 2] == s@[end - 2]);
            }
        }
        if end > 0 && s[end - 1] == 0x2F {
            end = end - 1;
        } else if end >= 2 && s[end - 1] == 0x2E && s[end - 2] == 0x2F {
            end = end - 1;
        } else {
            return end;
        }
    }
}

/// The path without its last component.
pub fn path_parent(p: &[u8]) -> (r: Option<Vec<u8>>)
    ensures
        match r {
            Some(d) => parent_of(p@) == Some(d@),
            None => parent_of(p@) is None,
        },
{
    let end: usize = trimmed_len(p);
    if end == 0 {
        return None;
    }
    let t = vstd::slice::slice_subrange(p, 0, end);
    assert(t@ =~= p@.take(end as int));
    proof {
        last_slash_is_last(t@);
    }
    let head_len: usize = match find_last_slash(t) {
        Some(i) => i + 1,
        None => 0,
    };
    let head = vstd::slice::slice_subrange(t, 0, head_len);
    assert(head@ =~= t@.take(last_slash(t@) + 1));
    let rest: usize = trimmed_len(head);
    let keep: usize = if rest > 0 {
        rest
    } else if head.len() > 0 {
        1
    } else {
        0
    };
    let out = vstd::slice::slice_subrange(head, 0, keep);
    proof {
        assert(out@ =~= head@.take(keep as int));
        assert(parent_of(p@) == Some(out@));
    }
    Some(copy_bytes(out))
}

/// A path with another last component.
pub fn path_with_name(p: &[u8], name: &[u8]) -> (r: Vec<u8>)
    ensures
        r@ == renamed(p@, name@),
{
    match path_file_name(p) {
        Some(_) => match path_parent(p) {
            Some(d) => join_path(d.as_slice(), name),
            None => join_path(p, name),
        },
        None => join_path(p, name),
    }
}

/// A path below an absolute or empty base is found again by its parts.
pub proof fn join_keeps_name(base: Seq<u8>, name: Seq<u8>)
    requires
        base.len() > 0,
        name.len() > 0,
        !is_absolute(name),
    ensures
        joined(base, name).len() >= base.len() + name.len(),
        joined(base, name).take(base.len() as int) == base,
        joined(base, name).skip(joined(base, name).len() - name.len()) == name,
{
    let j = joined(base, name);
    assert(j.take(base.len() as int) =~= base);
    assert(j.skip(j.len() - name.len()) =~= name);
}

// ---------------------------------------------------------------------------
// Components
// ---------------------------------------------------------------------------

/// Where a component of a path ends.
pub open spec fn component_end(t: Seq<u8>, i: int) -> int
    decreases t.len() - i,
{
    if i >= t.len() || t[i] == 0x2F {
        i
    } else {
        component_end(t, i + 1)
    }
}

/// A component ends behind its start.
pub proof fn component_end_bound(t: Seq<u8>, i: int)
    requires
        i <= t.len(),
    ensures
        i <= component_end(t, i) <= t.len(),
    decreases t.len() - i,
{
    if i < t.len() {
        component_end_bound(t, i + 1);
    }
}

/// A part of a path that stands for nothing: one without a byte, or a `.` that
/// does not start the path.
pub open spec fn is_idle(p: Seq<u8>, i: int, e: int) -> bool {
    e == i || (e == i + 1 && p[i] == 0x2E && i > 0)
}

/// The components of a path from a place on.
pub open spec fn components(p: Seq<u8>, i: int) -> Seq<Seq<u8>>
    decreases p.len() + 1 - i,
{
    if i < 0 || i >= p.len() {
        Seq::empty()
    } else {
        proof {
            component_end_bound(p, i);
        }
        let e = component_end(p, i);
        let rest = components(p, e + 1);
        if is_idle(p, i, e) {
            rest
        } else {
            seq![p.subrange(i, e)] + rest
        }
    }
}

/// Two paths are the same: both start at the root or neither does, and they
/// have the same components. Slashes that are doubled or stand at the end do
/// not count, nor does a `.` behind the start.
pub open spec fn same_path(a: Seq<u8>, b: Seq<u8>) -> bool {
    is_absolute(a) == is_absolute(b) && components(a, 0) == components(b, 0)
}

/// The components of a path.
fn path_components(p: &[u8]) -> (r: Vec<&[u8]>)
    ensures
        r.len() == components(p@, 0).len(),
        forall|k: int| 0 <= k < r.len() ==> (#[trigger] r@[k])@ == components(p@, 0)[k],
{
    let mut out: Vec<&[u8]> = Vec::new();
    let mut i: usize = 0;
    let ghost all = components(p@, 0);
    let ghost mut done: Seq<Seq<u8>> = Seq::empty();
    assert(done + all =~= all);
    while i < p.len()
        invariant
            i <= p.len(),
            all == done + components(p@, i as int),
            out.len() == done.len(),
            forall|k: int| 0 <= k < out.len() ==> (#[trigger] out@[k])@ == done[k],
        decreases p.len() - i,
    {
        let start: usize = i;
        while i < p.len() && p[i] != 0x2F
            invariant
                start <= i <= p.len(),
                component_end(p@, start as int) == component_end(p@, i as int),
            decreases p.len() - i,
        {
            i = i + 1;
        }
        assert(component_end(p@, start as int) == i);
        let ghost rest = components(p@, i + 1);
        let idle = i == start || (i == start + 1 && p[start] == 0x2E && start > 0);
        if !idle {
            let part = vstd::slice::slice_subrange(p, start, i);
            out.push(part);
            proof {
                assert(done + (seq![part@] + rest) =~= done.push(part@) + rest);
                done = done.push(part@);
            }
        }
        if i < p.len() {
            i = i + 1;
        } else {
            assert(rest =~= Seq::empty());
        }
    }
    assert(done =~= all);
    out
}

/// Whether two paths are the same.
pub fn paths_equal(a: &[u8], b: &[u8]) -> (r: bool)
    ensures
        r == same_path(a@, b@),
{
    if path_is_absolute(a) != path_is_absolute(b) {
        return false;
    }
    let x = path_components(a);
    let y = path_components(b);
    if x.len() != y.len() {
        return false;
    }
    let mut i: usize = 0;
    while i < x.len()
        invariant
            i <= x.len(),
            x.len() == y.len(),
            x.len() == components(a@, 0).len(),
            y.len() == components(b@, 0).len(),
            forall|k: int| 0 <= k < x.len() ==> (#[trigger] x@[k])@ == components(a@, 0)[k],
            forall|k: int| 0 <= k < y.len() ==> (#[trigger] y@[k])@ == components(b@, 0)[k],
            forall|k: int|
                0 <= k < i ==> (#[trigger] components(a@, 0)[k]) == components(b@, 0)[k],
        decreases x.len() - i,
    {
        if !same_bytes(x[i], y[i]) {
            assert(components(a@, 0)[i as int] != components(b@, 0)[i as int]);
            return false;
        }
        i = i + 1;
    }
    assert(components(a@, 0) =~= components(b@, 0));
    true
}

} // verus!

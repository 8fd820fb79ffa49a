//! Stable sorting, for any order.

use vstd::prelude::*;

verus! {

/// A relation by which things can be sorted: of two things one may come first,
/// and the relation is transitive.
pub open spec fn is_order<A>(le: spec_fn(A, A) -> bool) -> bool {
    &&& forall|a: A, b: A| #[trigger] le(a, b) || le(b, a)
    &&& forall|a: A, b: A, c: A| #[trigger] le(a, b) && #[trigger] le(b, c) ==> le(a, c)
}

/// A thing put into a sorted list, behind those that it need not precede.
pub open spec fn inserted<A>(s: Seq<A>, e: A, le: spec_fn(A, A) -> bool) -> Seq<A>
    decreases s.len(),
{
    if s.len() == 0 || le(s.last(), e) {
        s.push(e)
    } else {
        inserted(s.drop_last(), e, le).push(s.last())
    }
}

/// A list in order; what compares equal keeps its order.
pub open spec fn sorted_by<A>(s: Seq<A>, le: spec_fn(A, A) -> bool) -> Seq<A>
    decreases s.len(),
{
    if s.len() == 0 {
        s
    } else {
        inserted(sorted_by(s.drop_last(), le), s.last(), le)
    }
}

/// Two sorted lists in one, the things of the first before their equals.
pub open spec fn merged<A>(x: Seq<A>, y: Seq<A>, le: spec_fn(A, A) -> bool) -> Seq<A>
    decreases x.len() + y.len(),
{
    if y.len() == 0 {
        x
    } else if x.len() == 0 {
        y
    } else if le(x.last(), y.last()) {
        merged(x, y.drop_last(), le).push(y.last())
    } else {
        merged(x.drop_last(), y, le).push(x.last())
    }
}

proof fn push_pop<A>(s: Seq<A>, e: A)
    ensures
        s.push(e).drop_last() == s,
        s.push(e).last() == e,
{
    assert(s.push(e).drop_last() =~= s);
}

proof fn merge_last<A>(x: Seq<A>, y: Seq<A>, le: spec_fn(A, A) -> bool)
    requires
        x.len() + y.len() > 0,
    ensures
        merged(x, y, le).len() == x.len() + y.len(),
        y.len() == 0 ==> merged(x, y, le).last() == x.last(),
        x.len() == 0 ==> merged(x, y, le).last() == y.last(),
        x.len() > 0 && y.len() > 0 ==> merged(x, y, le).last() == (if le(x.last(), y.last()) {
            y.last()
        } else {
            x.last()
        }),
    decreases x.len() + y.len(),
{
    if x.len() > 0 && y.len() > 0 {
        if le(x.last(), y.last()) {
            merge_last(x, y.drop_last(), le);
        } else {
            merge_last(x.drop_last(), y, le);
        }
    }
}

/// Merging and inserting can change places.
proof fn merge_insert<A>(x: Seq<A>, y: Seq<A>, e: A, le: spec_fn(A, A) -> bool)
    requires
        is_order(le),
    ensures
        merged(x, inserted(y, e, le), le) == inserted(merged(x, y, le), e, le),
    decreases x.len() + y.len(),
{
    if x.len() == 0 {
        assert(inserted(y, e, le).len() > 0);
        if y.len() == 0 {
            assert(merged(x, y, le) =~= y);
        }
    } else if y.len() == 0 {
        push_pop(y, e);
        if !le(x.last(), e) {
            merge_insert(x.drop_last(), y, e, le);
            assert(merged(x.drop_last(), y, le) == x.drop_last());
        }
    } else {
        let a = x.last();
        let b = y.last();
        merge_last(x, y, le);
        assert(le(a, b) || le(b, a));
        assert(le(a, e) || le(e, a));
        assert(le(b, e) || le(e, b));
        if le(b, e) {
            push_pop(y, e);
            if !le(a, e) {
                assert(!le(a, b));
                merge_insert(x.drop_last(), y, e, le);
                push_pop(merged(x.drop_last(), y, le), a);
            }
        } else {
            let t = inserted(y.drop_last(), e, le);
            push_pop(t, b);
            if le(a, b) {
                merge_insert(x, y.drop_last(), e, le);
                push_pop(merged(x, y.drop_last(), le), b);
            } else {
                assert(!le(a, e)) by {
                    if le(a, e) {
                        assert(le(e, b));
                    }
                }
                merge_insert(x.drop_last(), y, e, le);
                push_pop(merged(x.drop_last(), y, le), a);
            }
        }
    }
}

/// Two halves sorted and merged are the whole sorted.
pub proof fn merge_sorted<A>(a: Seq<A>, b: Seq<A>, le: spec_fn(A, A) -> bool)
    requires
        is_order(le),
    ensures
        merged(sorted_by(a, le), sorted_by(b, le), le) == sorted_by(a + b, le),
    decreases b.len(),
{
    if b.len() == 0 {
        assert(a + b =~= a);
    } else {
        merge_sorted(a, b.drop_last(), le);
        merge_insert(sorted_by(a, le), sorted_by(b.drop_last(), le), b.last(), le);
        assert((a + b).drop_last() =~= a + b.drop_last());
        assert((a + b).last() == b.last());
    }
}

/// Sorting neither loses nor adds anything.
pub proof fn sorting_keeps<A>(s: Seq<A>, le: spec_fn(A, A) -> bool)
    ensures
        sorted_by(s, le).len() == s.len(),
        sorted_by(s, le).to_multiset() == s.to_multiset(),
    decreases s.len(),
{
    broadcast use vstd::seq_lib::group_to_multiset_ensures;

    if s.len() > 0 {
        sorting_keeps(s.drop_last(), le);
        inserting_keeps(sorted_by(s.drop_last(), le), s.last(), le);
        assert(s =~= s.drop_last().push(s.last()));
    }
}

/// The things of a list are in order.
pub open spec fn is_ordered<A>(s: Seq<A>, le: spec_fn(A, A) -> bool) -> bool {
    forall|i: int, j: int| 0 <= i <= j < s.len() ==> le(#[trigger] s[i], #[trigger] s[j])
}

/// A sorted list is in order.
pub proof fn sorting_puts_in_order<A>(s: Seq<A>, le: spec_fn(A, A) -> bool)
    requires
        is_order(le),
    ensures
        is_ordered(sorted_by(s, le), le),
    decreases s.len(),
{
    if s.len() > 0 {
        sorting_puts_in_order(s.drop_last(), le);
        inserting_puts_in_order(sorted_by(s.drop_last(), le), s.last(), le);
    }
}

proof fn inserting_puts_in_order<A>(s: Seq<A>, e: A, le: spec_fn(A, A) -> bool)
    requires
        is_order(le),
        is_ordered(s, le),
    ensures
        is_ordered(inserted(s, e, le), le),
        inserted(s, e, le).len() == s.len() + 1,
        inserted(s, e, le).last() == (if s.len() == 0 || le(s.last(), e) {
            e
        } else {
            s.last()
        }),
    decreases s.len(),
{
    let t = inserted(s, e, le);
    assert(le(e, e));
    if s.len() == 0 || le(s.last(), e) {
        assert forall|i: int, j: int| 0 <= i <= j < t.len() implies le(
            #[trigger] t[i],
            #[trigger] t[j],
        ) by {
            if i < s.len() {
                let k = if j < s.len() {
                    j
                } else {
                    s.len() - 1
                };
                assert(le(s[i], s[k]));
            }
        }
    } else {
        let h = s.drop_last();
        inserting_puts_in_order(h, e, le);
        let u = inserted(h, e, le);
        assert(le(e, s.last()));
        assert forall|i: int, j: int| 0 <= i <= j < t.len() implies le(
            #[trigger] t[i],
            #[trigger] t[j],
        ) by {
            if j == t.len() - 1 && i < u.len() {
                assert(le(u[i], u.last()));
                if h.len() > 0 {
                    assert(le(h[h.len() - 1], s.last()));
                }
                assert(le(u.last(), s.last()));
            } else if j < u.len() {
                assert(le(u[i], u[j]));
            } else {
                assert(le(s.last(), s.last()));
            }
        }
    }
}

proof fn inserting_keeps<A>(s: Seq<A>, e: A, le: spec_fn(A, A) -> bool)
    ensures
        inserted(s, e, le).len() == s.len() + 1,
        inserted(s, e, le).to_multiset() == s.push(e).to_multiset(),
    decreases s.len(),
{
    broadcast use vstd::seq_lib::group_to_multiset_ensures;

    if s.len() > 0 && !le(s.last(), e) {
        let h = s.drop_last();
        inserting_keeps(h, e, le);
        let u = inserted(h, e, le);
        assert(s =~= h.push(s.last()));
        assert(u.push(s.last()).to_multiset() == u.to_multiset().insert(s.last()));
        assert(h.push(e).to_multiset() == h.to_multiset().insert(e));
        assert(s.to_multiset() == h.to_multiset().insert(s.last()));
        assert(inserted(s, e, le).to_multiset() =~= s.push(e).to_multiset());
    }
}

/// What is in a sorted list was in the list.
pub proof fn sorted_contains<A>(s: Seq<A>, le: spec_fn(A, A) -> bool, i: int)
    requires
        0 <= i < sorted_by(s, le).len(),
    ensures
        s.contains(sorted_by(s, le)[i]),
{
    broadcast use vstd::seq_lib::group_to_multiset_ensures;

    sorting_keeps(s, le);
    let t = sorted_by(s, le);
    assert(t.contains(t[i]));
    assert(t.to_multiset().count(t[i]) > 0);
    assert(s.to_multiset().count(t[i]) > 0);
}

/// Sorting things by what is taken from them takes the same from them sorted.
pub proof fn sorting_maps<A, B>(
    s: Seq<A>,
    f: spec_fn(A) -> B,
    rel: spec_fn(A, A) -> bool,
    le: spec_fn(B, B) -> bool,
)
    requires
        forall|a: A, b: A| #[trigger] rel(a, b) == le(f(a), f(b)),
    ensures
        sorted_by(s, rel).map_values(f) == sorted_by(s.map_values(f), le),
    decreases s.len(),
{
    if s.len() == 0 {
        assert(s.map_values(f) =~= Seq::empty());
        assert(sorted_by(s, rel).map_values(f) =~= sorted_by(s.map_values(f), le));
    } else {
        sorting_maps(s.drop_last(), f, rel, le);
        assert(s.map_values(f).drop_last() =~= s.drop_last().map_values(f));
        inserting_maps(sorted_by(s.drop_last(), rel), s.last(), f, rel, le);
    }
}

proof fn inserting_maps<A, B>(
    s: Seq<A>,
    e: A,
    f: spec_fn(A) -> B,
    rel: spec_fn(A, A) -> bool,
    le: spec_fn(B, B) -> bool,
)
    requires
        forall|a: A, b: A| #[trigger] rel(a, b) == le(f(a), f(b)),
    ensures
        inserted(s, e, rel).map_values(f) == inserted(s.map_values(f), f(e), le),
    decreases s.len(),
{
    let t = s.map_values(f);
    if s.len() == 0 || rel(s.last(), e) {
        assert(s.push(e).map_values(f) =~= t.push(f(e)));
    } else {
        inserting_maps(s.drop_last(), e, f, rel, le);
        assert(t.drop_last() =~= s.drop_last().map_values(f));
        assert(inserted(s, e, rel).map_values(f) =~= inserted(s.drop_last(), e, rel).map_values(
            f,
        ).push(f(s.last())));
    }
}

/// A list that is in order is sorted.
pub proof fn ordered_is_sorted<A>(s: Seq<A>, le: spec_fn(A, A) -> bool)
    requires
        is_ordered(s, le),
    ensures
        sorted_by(s, le) == s,
    decreases s.len(),
{
    if s.len() > 0 {
        ordered_is_sorted(s.drop_last(), le);
        assert(s =~= s.drop_last().push(s.last()));
        if s.len() > 1 {
            assert(le(s[s.len() - 2], s[s.len() - 1]));
        }
    }
}

// ---------------------------------------------------------------------------
// Names
// ---------------------------------------------------------------------------

/// One byte string comes before another.
pub open spec fn bytes_less(a: Seq<u8>, b: Seq<u8>) -> bool
    decreases a.len(),
{
    if b.len() == 0 {
        false
    } else if a.len() == 0 {
        true
    } else if a[0] != b[0] {
        a[0] < b[0]
    } else {
        bytes_less(a.skip(1), b.skip(1))
    }
}

/// One byte string may come before another.
pub open spec fn bytes_le(a: Seq<u8>, b: Seq<u8>) -> bool {
    !bytes_less(b, a)
}

proof fn bytes_compare(a: Seq<u8>, b: Seq<u8>, c: Seq<u8>)
    ensures
        !(bytes_less(a, b) && bytes_less(b, a)),
        bytes_less(a, b) && bytes_less(b, c) ==> bytes_less(a, c),
        !bytes_less(a, b) && !bytes_less(b, c) ==> !bytes_less(a, c),
    decreases a.len() + b.len() + c.len(),
{
    if a.len() > 0 && b.len() > 0 {
        if c.len() > 0 {
            bytes_compare(a.skip(1), b.skip(1), c.skip(1));
        } else {
            bytes_compare(a.skip(1), b.skip(1), c);
        }
    }
}

/// Byte strings can be sorted.
pub proof fn bytes_are_ordered()
    ensures
        forall|a: Seq<u8>, b: Seq<u8>| #[trigger] bytes_le(a, b) || bytes_le(b, a),
        forall|a: Seq<u8>, b: Seq<u8>, c: Seq<u8>| #[trigger]
            bytes_le(a, b) && #[trigger] bytes_le(b, c) ==> bytes_le(a, c),
{
    assert forall|a: Seq<u8>, b: Seq<u8>| #[trigger] bytes_le(a, b) || bytes_le(b, a) by {
        bytes_compare(a, b, a);
    }
    assert forall|a: Seq<u8>, b: Seq<u8>, c: Seq<u8>| #[trigger]
        bytes_le(a, b) && #[trigger] bytes_le(b, c) implies bytes_le(a, c) by {
        bytes_compare(c, b, a);
    }
}

/// Whether one byte string may come before another.
pub fn bytes_in_order(a: &[u8], b: &[u8]) -> (r: bool)
    ensures
        r == bytes_le(a@, b@),
{
    let mut i: usize = 0;
    proof {
        assert(a@.skip(0) =~= a@);
        assert(b@.skip(0) =~= b@);
    }
    while i < a.len() && i < b.len()
        invariant
            i <= a.len(),
            i <= b.len(),
            bytes_less(b@, a@) == bytes_less(b@.skip(i as int), a@.skip(i as int)),
        decreases a.len() - i,
    {
        proof {
            assert(a@.skip(i as int).skip(1) =~= a@.skip(i + 1));
            assert(b@.skip(i as int).skip(1) =~= b@.skip(i + 1));
        }
        if a[i] != b[i] {
            return a[i] < b[i];
        }
        i = i + 1;
    }
    i == a.len()
}

/// The numbers below one, in order.
pub open spec fn numbers(n: nat) -> Seq<usize> {
    Seq::new(n, |i: int| i as usize)
}

/// Places in the order of the names at them.
pub open spec fn by_name(names: Seq<Seq<u8>>) -> spec_fn(usize, usize) -> bool {
    |i: usize, j: usize| bytes_le(names[i as int], names[j as int])
}

/// The places of names, sorted by the names; equal names keep their order.
pub open spec fn name_order(names: Seq<Seq<u8>>) -> Seq<usize> {
    sorted_by(numbers(names.len()), by_name(names))
}

/// The order of names is that of their places: each place once.
pub proof fn name_order_places(names: Seq<Seq<u8>>)
    requires
        names.len() <= usize::MAX,
    ensures
        name_order(names).len() == names.len(),
        forall|k: int| 0 <= k < names.len() ==> (#[trigger] name_order(names)[k]) < names.len(),
{
    let s = numbers(names.len());
    let le = by_name(names);
    sorting_keeps(s, le);
    assert forall|k: int| 0 <= k < names.len() implies (#[trigger] name_order(names)[k])
        < names.len() by {
        sorted_contains(s, le, k);
        let i = choose|i: int| 0 <= i < s.len() && s[i] == name_order(names)[k];
        assert(s[i] == i);
    }
}

proof fn by_name_is_order(names: Seq<Seq<u8>>)
    ensures
        is_order(by_name(names)),
{
    bytes_are_ordered();
    let le = by_name(names);
    assert forall|a: usize, b: usize| #[trigger] le(a, b) || le(b, a) by {
        assert(bytes_le(names[a as int], names[b as int]) || bytes_le(
            names[b as int],
            names[a as int],
        ));
    }
    assert forall|a: usize, b: usize, c: usize| #[trigger]
        le(a, b) && #[trigger] le(b, c) implies le(a, c) by {
        assert(bytes_le(names[a as int], names[b as int]));
        assert(bytes_le(names[b as int], names[c as int]));
    }
}

/// Views of byte strings.
pub open spec fn views(names: Seq<&[u8]>) -> Seq<Seq<u8>> {
    Seq::new(names.len(), |i: int| names[i]@)
}

fn merge_places(x: Vec<usize>, y: Vec<usize>, names: &Vec<&[u8]>) -> (r: Vec<usize>)
    requires
        forall|k: int| 0 <= k < x.len() ==> (#[trigger] x@[k]) < names.len(),
        forall|k: int| 0 <= k < y.len() ==> (#[trigger] y@[k]) < names.len(),
    ensures
        r@ == merged(x@, y@, by_name(views(names@))),
        forall|k: int| 0 <= k < r.len() ==> (#[trigger] r@[k]) < names.len(),
{
    let ghost le = by_name(views(names@));
    let ghost want = merged(x@, y@, le);
    let mut i: usize = x.len();
    let mut j: usize = y.len();
    let mut back: Vec<usize> = Vec::new();
    proof {
        assert(x@.take(i as int) =~= x@);
        assert(y@.take(j as int) =~= y@);
        assert(want =~= merged(x@.take(i as int), y@.take(j as int), le) + back@.reverse());
    }
    while i > 0 || j > 0
        invariant
            i <= x.len(),
            j <= y.len(),
            le == by_name(views(names@)),
            forall|k: int| 0 <= k < x.len() ==> (#[trigger] x@[k]) < names.len(),
            forall|k: int| 0 <= k < y.len() ==> (#[trigger] y@[k]) < names.len(),
            forall|k: int| 0 <= k < back.len() ==> (#[trigger] back@[k]) < names.len(),
            want == merged(x@.take(i as int), y@.take(j as int), le) + back@.reverse(),
        decreases i + j,
    {
        let ghost a = x@.take(i as int);
        let ghost b = y@.take(j as int);
        let ghost had = back@;
        let from_y = if j == 0 {
            false
        } else if i == 0 {
            true
        } else {
            let p: usize = x[i - 1];
            let q: usize = y[j - 1];
            assert(a.last() == p && b.last() == q);
            bytes_in_order(names[p], names[q])
        };
        if from_y {
            proof {
                assert(b.drop_last() =~= y@.take(j - 1));
                if i == 0 {
                    assert(merged(a, b, le) =~= merged(a, b.drop_last(), le).push(b.last()));
                }
            }
            back.push(y[j - 1]);
            j = j - 1;
        } else {
            proof {
                assert(a.drop_last() =~= x@.take(i - 1));
                if j == 0 {
                    assert(merged(a, b, le) =~= merged(a.drop_last(), b, le).push(a.last()));
                }
            }
            back.push(x[i - 1]);
            i = i - 1;
        }
        proof {
            let m = merged(x@.take(i as int), y@.take(j as int), le);
            let e = back@.last();
            assert(back@ =~= had.push(e));
            assert(m.push(e) + had.reverse() =~= m + had.push(e).reverse());
        }
    }
    let mut out: Vec<usize> = Vec::new();
    let mut k: usize = back.len();
    proof {
        assert(merged(x@.take(0), y@.take(0), le) =~= Seq::empty());
        assert(want =~= back@.reverse());
        assert(back@.take(k as int) =~= back@);
        assert(out@ + back@.take(k as int).reverse() =~= want);
    }
    while k > 0
        invariant
            k <= back.len(),
            forall|m: int| 0 <= m < back.len() ==> (#[trigger] back@[m]) < names.len(),
            forall|m: int| 0 <= m < out.len() ==> (#[trigger] out@[m]) < names.len(),
            want == out@ + back@.take(k as int).reverse(),
        decreases k,
    {
        let ghost o = out@;
        let e: usize = back[k - 1];
        out.push(e);
        proof {
            assert(o + back@.take(k as int).reverse() =~= o.push(e) + back@.take(
                k - 1,
            ).reverse());
        }
        k = k - 1;
    }
    assert(want =~= out@);
    out
}

fn sort_places(from: usize, to: usize, names: &Vec<&[u8]>) -> (r: Vec<usize>)
    requires
        from <= to <= names.len(),
    ensures
        r@ == sorted_by(
            numbers(names@.len()).subrange(from as int, to as int),
            by_name(views(names@)),
        ),
        forall|k: int| 0 <= k < r.len() ==> (#[trigger] r@[k]) < names.len(),
    decreases to - from,
{
    let ghost le = by_name(views(names@));
    let ghost all = numbers(names@.len());
    if to - from <= 1 {
        let mut r: Vec<usize> = Vec::new();
        if from < to {
            r.push(from);
        }
        proof {
            let s = all.subrange(from as int, to as int);
            assert(r@ =~= s);
            if s.len() == 1 {
                assert(sorted_by(s.drop_last(), le) =~= Seq::empty());
                assert(sorted_by(s, le) =~= s);
            }
        }
        return r;
    }
    let mid: usize = from + (to - from) / 2;
    let a = sort_places(from, mid, names);
    let b = sort_places(mid, to, names);
    proof {
        by_name_is_order(views(names@));
        let s = all.subrange(from as int, mid as int);
        let t = all.subrange(mid as int, to as int);
        assert(s + t =~= all.subrange(from as int, to as int));
        merge_sorted(s, t, le);
    }
    merge_places(a, b, names)
}

/// The places of names, sorted by the names.
pub fn order_of_names(names: &Vec<&[u8]>) -> (r: Vec<usize>)
    ensures
        r@ == name_order(views(names@)),
        r.len() == names.len(),
        forall|k: int| 0 <= k < r.len() ==> (#[trigger] r@[k]) < names.len(),
{
    let n: usize = names.len();
    let r = sort_places(0, n, names);
    proof {
        assert(numbers(names@.len()).subrange(0, n as int) =~= numbers(names@.len()));
        name_order_places(views(names@));
    }
    r
}

} // verus!

//! Canonical sort order for rsync file lists.
//!
//! Both sides of a session number the entries of a file list by their place in
//! this order. A directory counts as if its name ended with a slash, and at any
//! directory level what is no directory comes before the directories.

use std::cmp::Ordering;

use vstd::prelude::*;

use crate::filelist::entry::{
    basename_of, entry_views, find_last_slash, last_slash, last_slash_is_last, EntryView, FileEntry,
    S_IFDIR, S_IFMT,
};
use crate::order::{
    bytes_less, is_order, is_ordered, merge_sorted, merged, sorted_by, sorting_keeps, sorting_maps,
    sorting_puts_in_order,
};

verus! {

// ---------------------------------------------------------------------------
// The key of an entry
// ---------------------------------------------------------------------------

/// The slash.
pub const SLASH: u8 = 0x2F;

/// What is added to a byte that belongs to the name of a directory.
pub const PATH_RANK: u16 = 256;

/// A byte of a name, ranked by whether it belongs to the name of a directory.
pub open spec fn ranked(b: u8, path: bool) -> u16 {
    if path {
        (b + PATH_RANK) as u16
    } else {
        b as u16
    }
}

/// The bytes of a name, all of the same rank.
pub open spec fn ranked_all(s: Seq<u8>, path: bool) -> Seq<u16> {
    Seq::new(s.len(), |i: int| ranked(s[i], path))
}

/// The key by which an entry is ordered: the directory part of its name ranked
/// as a path, then the last component ranked by what the entry is, then a slash
/// where it is a directory. The component `.` of a directory stands for the
/// directory part itself.
pub open spec fn sort_key(name: Seq<u8>, is_dir: bool) -> Seq<u16> {
    let head = ranked_all(name.take(last_slash(name) + 1), true);
    let base = basename_of(name);
    if is_dir && base == seq![0x2Eu8] {
        head
    } else if is_dir {
        head + ranked_all(base, true) + seq![ranked(SLASH, true)]
    } else {
        head + ranked_all(base, false)
    }
}

/// The key of an entry.
pub open spec fn key_of(e: EntryView) -> Seq<u16> {
    sort_key(e.name, e.mode & S_IFMT == S_IFDIR)
}

/// One key comes before the other: at the first difference it is smaller or
/// has ended.
pub open spec fn key_less(a: Seq<u16>, b: Seq<u16>) -> bool
    decreases a.len(),
{
    if b.len() == 0 {
        false
    } else if a.len() == 0 {
        true
    } else if a[0] != b[0] {
        a[0] < b[0]
    } else {
        key_less(a.skip(1), b.skip(1))
    }
}

/// One entry may stand before the other.
pub open spec fn in_order(a: EntryView, b: EntryView) -> bool {
    !key_less(key_of(b), key_of(a))
}

/// Of two keys one comes before the other, or they are equal; never two of
/// these at once.
pub proof fn keys_compare(a: Seq<u16>, b: Seq<u16>)
    ensures
        key_less(a, b) || key_less(b, a) || a == b,
        !(key_less(a, b) && key_less(b, a)),
        a == b ==> !key_less(a, b),
    decreases a.len(),
{
    if a.len() > 0 && b.len() > 0 {
        keys_compare(a.skip(1), b.skip(1));
        if a[0] == b[0] && a.skip(1) == b.skip(1) {
            assert(a =~= seq![a[0]] + a.skip(1));
            assert(b =~= seq![b[0]] + b.skip(1));
        }
    } else if a.len() == 0 && b.len() == 0 {
        assert(a =~= b);
    }
}

/// The order of keys is transitive.
pub proof fn keys_chain(a: Seq<u16>, b: Seq<u16>, c: Seq<u16>)
    ensures
        key_less(a, b) && key_less(b, c) ==> key_less(a, c),
    decreases a.len(),
{
    if a.len() > 0 && b.len() > 0 && c.len() > 0 {
        keys_chain(a.skip(1), b.skip(1), c.skip(1));
    }
}

/// Of two entries one may stand before the other, and this is transitive.
pub proof fn order_is_total(a: EntryView, b: EntryView, c: EntryView)
    ensures
        in_order(a, b) || in_order(b, a),
        in_order(a, b) && in_order(b, c) ==> in_order(a, c),
        !in_order(a, b) && in_order(c, b) ==> !in_order(a, c),
        in_order(a, b) && in_order(b, a) ==> key_of(a) == key_of(b),
{
    let x = key_of(a);
    let y = key_of(b);
    let z = key_of(c);
    keys_compare(x, y);
    keys_compare(y, z);
    keys_compare(x, z);
    keys_chain(x, y, z);
    keys_chain(y, z, x);
    keys_chain(z, x, y);
    keys_chain(z, y, x);
    keys_chain(y, x, z);
    keys_chain(x, z, y);
}

/// At a directory level, what is no directory comes before the directories.
pub proof fn files_before_directories(dir: Seq<u8>, file: Seq<u8>, sub: Seq<u8>)
    requires
        dir.len() == 0 || dir.last() == SLASH,
        forall|i: int| 0 <= i < file.len() ==> file[i] != SLASH,
        forall|i: int| 0 <= i < sub.len() ==> sub[i] != SLASH,
        sub != seq![0x2Eu8],
    ensures
        key_less(sort_key(dir + file, false), sort_key(dir + sub, true)),
{
    split_at_level(dir, file);
    split_at_level(dir, sub);
    let h = ranked_all(dir, true);
    let x = ranked_all(file, false);
    let y = ranked_all(sub, true) + seq![ranked(SLASH, true)];
    assert(sort_key(dir + file, false) =~= h + x);
    assert(sort_key(dir + sub, true) =~= h + y);
    common_start(h, x, y);
    assert(y[0] >= PATH_RANK);
}

/// A directory comes before everything inside it, at any depth.
pub proof fn directory_before_contents(dir: Seq<u8>, rest: Seq<u8>, is_dir: bool)
    requires
        basename_of(dir) != seq![0x2Eu8],
        rest.len() > 0,
        !(is_dir && rest == seq![0x2Eu8]),
    ensures
        key_less(sort_key(dir, true), sort_key(dir + seq![SLASH] + rest, is_dir)),
{
    let whole = dir + seq![SLASH];
    let name = whole + rest;
    last_slash_is_last(dir);
    last_slash_is_last(name);
    let k = sort_key(dir, true);
    assert(k =~= ranked_all(whole, true));
    let key = sort_key(name, is_dir);
    let p = last_slash(name);
    assert(name[dir.len() as int] == SLASH);
    assert(p >= dir.len());
    if p == dir.len() {
        assert(name.skip(p + 1) =~= rest);
    }
    assert(key.len() > k.len());
    let tail = key.skip(k.len() as int);
    assert(key =~= k + tail) by {
        assert forall|i: int| 0 <= i < k.len() implies key[i] == k[i] by {
            assert(name.take(p + 1)[i] == whole[i]);
        }
    }
    common_start(k, Seq::empty(), tail);
    assert(k + Seq::<u16>::empty() =~= k);
}

/// Files in one directory go by the bytes of their names; a name comes before those
/// that go on behind it. The same holds of directories, and a file comes before a
/// directory whatever their names are.
pub proof fn names_decide_in_a_directory(
    a: EntryView,
    b: EntryView,
    dir: Seq<u8>,
    x: Seq<u8>,
    y: Seq<u8>,
)
    requires
        dir.len() == 0 || dir.last() == 0x2F,
        forall|i: int| 0 <= i < x.len() ==> x[i] != 0x2F,
        forall|i: int| 0 <= i < y.len() ==> y[i] != 0x2F,
        a.name == dir + x,
        b.name == dir + y,
        x != seq![0x2Eu8],
        y != seq![0x2Eu8],
        x.len() > 0,
        y.len() > 0,
    ensures
        a.mode & 0o170000 != 0o040000 && b.mode & 0o170000 != 0o040000 ==> (in_order(a, b)
            <==> !bytes_less(y, x)),
        a.mode & 0o170000 != 0o040000 && b.mode & 0o170000 == 0o040000 ==> in_order(a, b)
            && !in_order(b, a),
        a.mode & 0o170000 == 0o040000 && b.mode & 0o170000 == 0o040000 ==> (in_order(a, b)
            <==> !bytes_less(y.push(0x2F), x.push(0x2F))),
{
    split_at_level(dir, x);
    split_at_level(dir, y);
    let h = ranked_all(dir, true);
    let fx = ranked_all(x, false);
    let fy = ranked_all(y, false);
    let dx = ranked_all(x, true) + seq![ranked(SLASH, true)];
    let dy = ranked_all(y, true) + seq![ranked(SLASH, true)];
    assert(sort_key(a.name, false) =~= h + fx);
    assert(sort_key(b.name, false) =~= h + fy);
    assert(sort_key(a.name, true) =~= h + dx);
    assert(sort_key(b.name, true) =~= h + dy);
    common_start(h, fy, fx);
    common_start(h, dy, dx);
    common_start(h, fx, dy);
    common_start(h, dy, fx);
    ranks_keep_the_order(y, x, false);
    ranks_keep_the_order(y.push(0x2F), x.push(0x2F), true);
    assert(dx =~= ranked_all(x.push(0x2F), true));
    assert(dy =~= ranked_all(y.push(0x2F), true));
    assert(dy[0] >= PATH_RANK);
    assert(fx[0] < PATH_RANK);
}

proof fn ranks_keep_the_order(x: Seq<u8>, y: Seq<u8>, path: bool)
    ensures
        key_less(ranked_all(x, path), ranked_all(y, path)) == bytes_less(x, y),
    decreases x.len(),
{
    if x.len() > 0 && y.len() > 0 {
        ranks_keep_the_order(x.skip(1), y.skip(1), path);
        assert(ranked_all(x, path).skip(1) =~= ranked_all(x.skip(1), path));
        assert(ranked_all(y, path).skip(1) =~= ranked_all(y.skip(1), path));
    }
}

/// The last slash of a name whose last component is given.
proof fn split_at_level(dir: Seq<u8>, base: Seq<u8>)
    requires
        dir.len() == 0 || dir.last() == SLASH,
        forall|i: int| 0 <= i < base.len() ==> base[i] != SLASH,
    ensures
        last_slash(dir + base) == dir.len() - 1,
        (dir + base).take(dir.len() as int) == dir,
        basename_of(dir + base) == base,
{
    let s = dir + base;
    last_slash_is_last(s);
    let p = last_slash(s);
    if p >= dir.len() {
        assert(s[p] == base[p - dir.len()]);
    }
    if dir.len() > 0 && p < dir.len() - 1 {
        assert(s[dir.len() - 1] == SLASH);
    }
    assert(s.take(dir.len() as int) =~= dir);
    assert(s.skip(p + 1) =~= base);
}

/// A common start does not decide.
proof fn common_start(h: Seq<u16>, x: Seq<u16>, y: Seq<u16>)
    ensures
        key_less(h + x, h + y) == key_less(x, y),
    decreases h.len(),
{
    if h.len() == 0 {
        assert(h + x =~= x);
        assert(h + y =~= y);
    } else {
        common_start(h.skip(1), x, y);
        assert((h + x).skip(1) =~= h.skip(1) + x);
        assert((h + y).skip(1) =~= h.skip(1) + y);
    }
}

// ---------------------------------------------------------------------------
// Comparing two entries
// ---------------------------------------------------------------------------

/// How two keys compare.
#[derive(Debug, Clone, Copy, PartialEq, Eq, Structural)]
pub enum NameOrder {
    Before,
    Same,
    After,
}

/// A walk over the key of an entry: bytes of the name, then perhaps a slash.
struct KeyWalk<'a> {
    name: &'a [u8],
    is_dir: bool,
    head: usize,
    plain: usize,
    slash: bool,
}

impl<'a> KeyWalk<'a> {
    spec fn key(&self) -> Seq<u16> {
        sort_key(self.name@, self.is_dir)
    }

    spec fn wf(&self) -> bool {
        &&& self.head == last_slash(self.name@) + 1
        &&& self.head <= self.plain <= self.name.len()
        &&& self.key().len() == self.plain + (if self.slash {
            1int
        } else {
            0
        })
        &&& forall|i: int|
            0 <= i < self.plain ==> self.key()[i] == ranked(
                #[trigger] self.name@[i],
                i < self.head || self.is_dir,
            )
        &&& self.slash ==> self.key()[self.plain as int] == ranked(SLASH, true)
    }

    fn new(e: &'a FileEntry) -> (r: KeyWalk<'a>)
        ensures
            r.wf(),
            r.key() == key_of(e@),
    {
        proof {
            last_slash_is_last(e.name@);
        }
        let name: &'a [u8] = e.name.as_slice();
        let is_dir = e.mode & S_IFMT == S_IFDIR;
        let head: usize = match find_last_slash(name) {
            Some(p) => p + 1,
            None => 0,
        };
        let dot = is_dir && name.len() - head == 1 && name[head] == 0x2E;
        let ghost base = basename_of(name@);
        proof {
            assert(base =~= name@.skip(head as int));
            if name.len() - head == 1 {
                assert(base =~= seq![name@[head as int]]);
            }
            if base == seq![0x2Eu8] {
                assert(base[0] == 0x2E && base.len() == 1);
            }
        }
        let plain: usize = if dot {
            head
        } else {
            name.len()
        };
        KeyWalk { name, is_dir, head, plain, slash: is_dir && !dot }
    }

    fn at(&self, i: usize) -> (r: Option<u16>)
        requires
            self.wf(),
        ensures
            r == (if i < self.key().len() {
                Some(self.key()[i as int])
            } else {
                None
            }),
    {
        if i < self.plain {
            let b: u8 = self.name[i];
            assert(self.name@[i as int] == b);
            if i < self.head || self.is_dir {
                Some(b as u16 + PATH_RANK)
            } else {
                Some(b as u16)
            }
        } else if i == self.plain && self.slash {
            Some(SLASH as u16 + PATH_RANK)
        } else {
            None
        }
    }
}

/// How the keys of two entries compare.
fn order_of(a: &FileEntry, b: &FileEntry) -> (r: NameOrder)
    ensures
        (r == NameOrder::Before) == key_less(key_of(a@), key_of(b@)),
        (r == NameOrder::After) == key_less(key_of(b@), key_of(a@)),
        (r == NameOrder::Same) == (key_of(a@) == key_of(b@)),
{
    let wa = KeyWalk::new(a);
    let wb = KeyWalk::new(b);
    let ghost x = key_of(a@);
    let ghost y = key_of(b@);
    let mut i: usize = 0;
    proof {
        keys_compare(x, y);
        assert(x.skip(0) =~= x);
        assert(y.skip(0) =~= y);
    }
    loop
        invariant
            wa.wf(),
            wb.wf(),
            wa.key() == x,
            wb.key() == y,
            x == key_of(a@),
            y == key_of(b@),
            i <= x.len(),
            i <= y.len(),
            key_less(x, y) == key_less(x.skip(i as int), y.skip(i as int)),
            key_less(y, x) == key_less(y.skip(i as int), x.skip(i as int)),
            key_less(x, y) || key_less(y, x) || x == y,
            !(key_less(x, y) && key_less(y, x)),
            x == y ==> !key_less(x, y) && !key_less(y, x),
        decreases x.len() - i,
    {
        let ghost s = x.skip(i as int);
        let ghost t = y.skip(i as int);
        match (wa.at(i), wb.at(i)) {
            (None, None) => {
                return NameOrder::Same;
            },
            (None, Some(_)) => {
                return NameOrder::Before;
            },
            (Some(_), None) => {
                return NameOrder::After;
            },
            (Some(ca), Some(cb)) => {
                proof {
                    assert(s[0] == ca && t[0] == cb);
                    assert(s.skip(1) =~= x.skip(i + 1));
                    assert(t.skip(1) =~= y.skip(i + 1));
                }
                if ca < cb {
                    return NameOrder::Before;
                }
                if ca > cb {
                    return NameOrder::After;
                }
            },
        }
        if i >= wa.plain && i >= wb.plain {
            proof {
                assert(x.len() == i + 1 && y.len() == i + 1);
                keys_compare(x.skip(i + 1), y.skip(i + 1));
                assert(x.skip(i + 1) =~= y.skip(i + 1));
            }
            return NameOrder::Same;
        }
        i = i + 1;
    }
}

/// Compare two file entries in rsync's canonical order.
pub fn f_name_cmp(a: &FileEntry, b: &FileEntry) -> (r: Ordering)
    ensures
        match r {
            Ordering::Less => key_less(key_of(a@), key_of(b@)),
            Ordering::Equal => key_of(a@) == key_of(b@),
            Ordering::Greater => key_less(key_of(b@), key_of(a@)),
        },
{
    match order_of(a, b) {
        NameOrder::Before => Ordering::Less,
        NameOrder::Same => Ordering::Equal,
        NameOrder::After => Ordering::Greater,
    }
}

// ---------------------------------------------------------------------------
// Sorting
// ---------------------------------------------------------------------------

/// The canonical order as a relation.
pub open spec fn canonical() -> spec_fn(EntryView, EntryView) -> bool {
    |a: EntryView, b: EntryView| in_order(a, b)
}

/// The entries in canonical order; those that compare equal keep their order.
pub open spec fn sorted(s: Seq<EntryView>) -> Seq<EntryView> {
    sorted_by(s, canonical())
}

proof fn canonical_is_order()
    ensures
        is_order(canonical()),
{
    let le = canonical();
    assert forall|a: EntryView, b: EntryView| #[trigger] le(a, b) || le(b, a) by {
        order_is_total(a, b, a);
    }
    assert forall|a: EntryView, b: EntryView, c: EntryView| #[trigger]
        le(a, b) && #[trigger] le(b, c) implies le(a, c) by {
        order_is_total(a, b, c);
    }
}

/// The entries are in canonical order.
pub open spec fn is_sorted(s: Seq<EntryView>) -> bool {
    is_ordered(s, canonical())
}

/// Sorting puts the entries in order and neither loses nor adds one.
pub proof fn sorting_orders(s: Seq<EntryView>)
    ensures
        is_sorted(sorted(s)),
        sorted(s).to_multiset() == s.to_multiset(),
        sorted(s).len() == s.len(),
{
    canonical_is_order();
    sorting_puts_in_order(s, canonical());
    sorting_keeps(s, canonical());
}

/// What is sorted by the canonical order of the entry that it holds.
pub(crate) trait Sortable: View + Sized {
    /// The entry.
    spec fn entry_in(v: Self::V) -> EntryView;

    /// The entry.
    fn entry(&self) -> (r: &FileEntry)
        ensures
            r@ == Self::entry_in(self@),
    ;
}

impl Sortable for FileEntry {
    open spec fn entry_in(v: EntryView) -> EntryView {
        v
    }

    fn entry(&self) -> (r: &FileEntry) {
        self
    }
}

/// An entry with its index.
impl Sortable for (i32, FileEntry) {
    open spec fn entry_in(v: (i32, EntryView)) -> EntryView {
        v.1
    }

    fn entry(&self) -> (r: &FileEntry) {
        &self.1
    }
}

/// The canonical order of what holds entries.
pub(crate) open spec fn by_entry<T: Sortable>() -> spec_fn(T::V, T::V) -> bool {
    |a: T::V, b: T::V| in_order(T::entry_in(a), T::entry_in(b))
}

/// The views of things.
pub(crate) open spec fn views_of<T: View>(s: Seq<T>) -> Seq<T::V> {
    Seq::new(s.len(), |i: int| s[i]@)
}

proof fn by_entry_is_order<T: Sortable>()
    ensures
        is_order(by_entry::<T>()),
{
    let le = by_entry::<T>();
    assert forall|a: T::V, b: T::V| #[trigger] le(a, b) || le(b, a) by {
        order_is_total(T::entry_in(a), T::entry_in(b), T::entry_in(a));
    }
    assert forall|a: T::V, b: T::V, c: T::V| #[trigger] le(a, b) && #[trigger] le(b, c) implies le(
        a,
        c,
    ) by {
        order_is_total(T::entry_in(a), T::entry_in(b), T::entry_in(c));
    }
}

/// Takes the greater of two last things off its list.
fn take_last<T: Sortable>(x: &mut Vec<T>, y: &mut Vec<T>) -> (r: T)
    requires
        old(x).len() + old(y).len() > 0,
    ensures
        final(x).len() + final(y).len() + 1 == old(x).len() + old(y).len(),
        merged(views_of(old(x)@), views_of(old(y)@), by_entry::<T>()) == merged(
            views_of(final(x)@),
            views_of(final(y)@),
            by_entry::<T>(),
        ).push(r@),
{
    let ghost le = by_entry::<T>();
    let ghost a = views_of(x@);
    let ghost b = views_of(y@);
    let from_y = if y.len() == 0 {
        false
    } else if x.len() == 0 {
        true
    } else {
        match order_of(x[x.len() - 1].entry(), y[y.len() - 1].entry()) {
            NameOrder::After => false,
            _ => true,
        }
    };
    proof {
        if a.len() > 0 && b.len() > 0 {
            assert(a.last() == x@.last()@ && b.last() == y@.last()@);
            keys_compare(key_of(T::entry_in(a.last())), key_of(T::entry_in(b.last())));
        }
    }
    if from_y {
        let r = y.pop().unwrap();
        proof {
            assert(views_of(y@) =~= b.drop_last());
            if a.len() == 0 {
                assert(merged(a, b, le) =~= merged(a, b.drop_last(), le).push(b.last()));
            }
        }
        r
    } else {
        let r = x.pop().unwrap();
        proof {
            assert(views_of(x@) =~= a.drop_last());
            if b.len() == 0 {
                assert(merged(a, b, le) =~= merged(a.drop_last(), b, le).push(a.last()));
            }
        }
        r
    }
}

fn merge<T: Sortable>(mut x: Vec<T>, mut y: Vec<T>) -> (r: Vec<T>)
    ensures
        views_of(r@) == merged(views_of(x@), views_of(y@), by_entry::<T>()),
{
    let ghost le = by_entry::<T>();
    let ghost want = merged(views_of(x@), views_of(y@), le);
    let mut back: Vec<T> = Vec::new();
    assert(want =~= merged(views_of(x@), views_of(y@), le) + views_of(back@).reverse());
    while x.len() > 0 || y.len() > 0
        invariant
            le == by_entry::<T>(),
            want == merged(views_of(x@), views_of(y@), le) + views_of(back@).reverse(),
        decreases x.len() + y.len(),
    {
        let ghost before = views_of(back@);
        let e = take_last(&mut x, &mut y);
        let ghost ev = e@;
        back.push(e);
        proof {
            let m = merged(views_of(x@), views_of(y@), le);
            assert(views_of(back@) =~= before.push(ev));
            assert(m.push(ev) + before.reverse() =~= m + before.push(ev).reverse());
        }
    }
    let mut out: Vec<T> = Vec::new();
    proof {
        assert(merged(views_of(x@), views_of(y@), le) =~= Seq::empty());
        assert(want =~= views_of(back@).reverse());
        assert(views_of(out@) + views_of(back@).reverse() =~= want);
    }
    while back.len() > 0
        invariant
            want == views_of(out@) + views_of(back@).reverse(),
        decreases back.len(),
    {
        let ghost b = views_of(back@);
        let ghost o = views_of(out@);
        let e = back.pop().unwrap();
        let ghost ev = e@;
        out.push(e);
        proof {
            assert(views_of(back@) =~= b.drop_last());
            assert(views_of(out@) =~= o.push(ev));
            assert(b.last() == ev);
            assert(o + b.reverse() =~= o.push(ev) + b.drop_last().reverse());
        }
    }
    assert(want =~= views_of(out@));
    out
}

/// Sorts what holds entries in their canonical order; what compares equal
/// keeps its order.
pub(crate) fn merge_sort<T: Sortable>(mut list: Vec<T>) -> (r: Vec<T>)
    ensures
        views_of(r@) == sorted_by(views_of(list@), by_entry::<T>()),
    decreases list.len(),
{
    let ghost le = by_entry::<T>();
    if list.len() <= 1 {
        proof {
            let v = views_of(list@);
            if v.len() == 1 {
                assert(sorted_by(v.drop_last(), le) =~= Seq::empty());
                assert(sorted_by(v, le) =~= v);
            }
        }
        return list;
    }
    let ghost all = views_of(list@);
    let mid: usize = list.len() / 2;
    let right = list.split_off(mid);
    proof {
        assert(views_of(list@) + views_of(right@) =~= all);
        by_entry_is_order::<T>();
        merge_sorted(views_of(list@), views_of(right@), le);
    }
    let a = merge_sort(list);
    let b = merge_sort(right);
    merge(a, b)
}

/// Sort a file list in rsync's canonical order.
///
/// The sort is stable.
pub fn canonical_sort(entries: &mut Vec<FileEntry>)
    ensures
        entry_views(final(entries)@) == sorted(entry_views(old(entries)@)),
{
    let mut list: Vec<FileEntry> = Vec::new();
    std::mem::swap(&mut list, entries);
    let ghost had = list@;
    *entries = merge_sort(list);
    proof {
        assert(views_of(had) =~= entry_views(had));
        assert(views_of(entries@) =~= entry_views(entries@));
        assert(by_entry::<FileEntry>() =~= canonical());
    }
}

// ---------------------------------------------------------------------------
// Entries with indices
// ---------------------------------------------------------------------------

/// The canonical order of entries that have indices.
pub open spec fn numbered_order() -> spec_fn((i32, EntryView), (i32, EntryView)) -> bool {
    |a: (i32, EntryView), b: (i32, EntryView)| in_order(a.1, b.1)
}

/// Entries with their indices in canonical order; those that compare equal
/// keep their order.
pub open spec fn sorted_numbered(s: Seq<(i32, EntryView)>) -> Seq<(i32, EntryView)> {
    sorted_by(s, numbered_order())
}

/// The entries of such a list.
pub open spec fn unnumbered(s: Seq<(i32, EntryView)>) -> Seq<EntryView> {
    s.map_values(|e: (i32, EntryView)| e.1)
}

/// Sorting entries with their indices sorts the entries, and every entry keeps
/// its index.
pub proof fn sorting_keeps_indices(s: Seq<(i32, EntryView)>)
    ensures
        unnumbered(sorted_numbered(s)) == sorted(unnumbered(s)),
        sorted_numbered(s).to_multiset() == s.to_multiset(),
        sorted_numbered(s).len() == s.len(),
{
    sorting_keeps(s, numbered_order());
    sorting_maps(s, |e: (i32, EntryView)| e.1, numbered_order(), canonical());
}

/// Views of entries with indices.
pub open spec fn numbered_views(s: Seq<(i32, FileEntry)>) -> Seq<(i32, EntryView)> {
    Seq::new(s.len(), |i: int| (s[i].0, s[i].1@))
}

/// Sorts entries with their indices.
pub fn sort_numbered(list: Vec<(i32, FileEntry)>) -> (r: Vec<(i32, FileEntry)>)
    ensures
        numbered_views(r@) == sorted_numbered(numbered_views(list@)),
{
    let ghost had = list@;
    let r = merge_sort(list);
    proof {
        assert(views_of(had) =~= numbered_views(had));
        assert(views_of(r@) =~= numbered_views(r@));
        assert(by_entry::<(i32, FileEntry)>() =~= numbered_order());
    }
    r
}

} // verus!

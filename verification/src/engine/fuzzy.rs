//! Similar files as a basis for a transfer (`--fuzzy`).

use vstd::prelude::*;

use crate::engine::delete::listing_views;
use crate::filelist::entry::{EntryView, FileEntry};
use crate::fs::metadata::{DirEntry, DirEntryView};

verus! {

/// The length of a longest common subsequence.
pub open spec fn common_len(a: Seq<u8>, b: Seq<u8>) -> nat
    decreases a.len() + b.len(),
{
    if a.len() == 0 || b.len() == 0 {
        0
    } else if a.last() == b.last() {
        common_len(a.drop_last(), b.drop_last()) + 1
    } else {
        let x = common_len(a.drop_last(), b);
        let y = common_len(a, b.drop_last());
        if x >= y {
            x
        } else {
            y
        }
    }
}

/// A common subsequence is no longer than either of the two.
pub proof fn common_len_bound(a: Seq<u8>, b: Seq<u8>)
    ensures
        common_len(a, b) <= a.len(),
        common_len(a, b) <= b.len(),
    decreases a.len() + b.len(),
{
    if a.len() > 0 && b.len() > 0 {
        if a.last() == b.last() {
            common_len_bound(a.drop_last(), b.drop_last());
        } else {
            common_len_bound(a.drop_last(), b);
            common_len_bound(a, b.drop_last());
        }
    }
}

/// A text has all of itself in common with itself.
pub proof fn same_is_whole(a: Seq<u8>)
    ensures
        common_len(a, a) == a.len(),
    decreases a.len(),
{
    if a.len() > 0 {
        same_is_whole(a.drop_last());
    }
}

/// Places in a text, each behind the one before.
pub open spec fn ascending(at: Seq<int>, n: nat) -> bool {
    &&& forall|k: int| 0 <= k < at.len() ==> 0 <= #[trigger] at[k] < n
    &&& forall|k: int, l: int| 0 <= k < l < at.len() ==> #[trigger] at[k] < #[trigger] at[l]
}

/// Places in two texts that pick the same subsequence from both.
pub open spec fn picks_common(a: Seq<u8>, b: Seq<u8>, x: Seq<int>, y: Seq<int>) -> bool {
    &&& x.len() == y.len()
    &&& ascending(x, a.len())
    &&& ascending(y, b.len())
    &&& forall|k: int| 0 <= k < x.len() ==> a[#[trigger] x[k]] == b[#[trigger] y[k]]
}

/// The greatest length of a common subsequence: there is one of this length,
/// and none is longer.
pub proof fn common_len_is_greatest(a: Seq<u8>, b: Seq<u8>)
    ensures
        exists|x: Seq<int>, y: Seq<int>| #[trigger]
            picks_common(a, b, x, y) && x.len() == common_len(a, b),
        forall|x: Seq<int>, y: Seq<int>| #[trigger]
            picks_common(a, b, x, y) ==> x.len() <= common_len(a, b),
{
    common_is_reached(a, b);
    assert forall|x: Seq<int>, y: Seq<int>| #[trigger] picks_common(a, b, x, y) implies x.len()
        <= common_len(a, b) by {
        none_is_longer(a, b, x, y);
    }
}

proof fn common_is_reached(a: Seq<u8>, b: Seq<u8>) -> (r: (Seq<int>, Seq<int>))
    ensures
        picks_common(a, b, r.0, r.1),
        r.0.len() == common_len(a, b),
    decreases a.len() + b.len(),
{
    if a.len() == 0 || b.len() == 0 {
        (Seq::empty(), Seq::empty())
    } else if a.last() == b.last() {
        let (x, y) = common_is_reached(a.drop_last(), b.drop_last());
        (x.push(a.len() - 1), y.push(b.len() - 1))
    } else {
        let p = common_is_reached(a.drop_last(), b);
        let q = common_is_reached(a, b.drop_last());
        if common_len(a.drop_last(), b) >= common_len(a, b.drop_last()) {
            p
        } else {
            q
        }
    }
}

proof fn none_is_longer(a: Seq<u8>, b: Seq<u8>, x: Seq<int>, y: Seq<int>)
    requires
        picks_common(a, b, x, y),
    ensures
        x.len() <= common_len(a, b),
    decreases a.len() + b.len(),
{
    if x.len() > 0 {
        let n = x.len() - 1;
        assert(0 <= x[n] < a.len() && 0 <= y[n] < b.len());
        if a.last() == b.last() {
            none_is_longer(a.drop_last(), b.drop_last(), x.drop_last(), y.drop_last());
        } else if x[n] < a.len() - 1 {
            none_is_longer(a.drop_last(), b, x, y);
        } else {
            assert(y[n] < b.len() - 1);
            none_is_longer(a, b.drop_last(), x, y);
        }
    }
}

/// The longer of two lengths.
pub open spec fn longer(a: Seq<u8>, b: Seq<u8>) -> nat {
    if a.len() >= b.len() {
        a.len()
    } else {
        b.len()
    }
}

/// The length of a longest common subsequence.
pub fn longest_common_subsequence_len(a: &[u8], b: &[u8]) -> (r: usize)
    requires
        b.len() < usize::MAX,
    ensures
        r == common_len(a@, b@),
{
    let n: usize = b.len();
    let mut prev: Vec<usize> = Vec::new();
    let mut k: usize = 0;
    while k <= n
        invariant
            n == b.len(),
            n < usize::MAX,
            k <= n + 1,
            prev.len() == k,
            forall|j: int| 0 <= j < k ==> prev@[j] == 0,
        decreases n + 1 - k,
    {
        prev.push(0);
        k = k + 1;
    }
    assert forall|j: int| 0 <= j <= n implies prev@[j] == common_len(
        a@.take(0),
        #[trigger] b@.take(j),
    ) by {}
    let mut i: usize = 0;
    while i < a.len()
        invariant
            i <= a.len(),
            n == b.len(),
            n < usize::MAX,
            prev.len() == n + 1,
            forall|j: int|
                0 <= j <= n ==> prev@[j] == common_len(a@.take(i as int), #[trigger] b@.take(j)),
        decreases a.len() - i,
    {
        let ghost row = a@.take(i + 1);
        let mut curr: Vec<usize> = Vec::new();
        curr.push(0);
        let mut j: usize = 1;
        proof {
            assert(row.drop_last() =~= a@.take(i as int));
            assert(row.last() == a@[i as int]);
            assert(b@.take(0).len() == 0);
        }
        while j <= n
            invariant
                i < a.len(),
                n == b.len(),
                n < usize::MAX,
                1 <= j <= n + 1,
                curr.len() == j,
                prev.len() == n + 1,
                row.len() == i + 1,
                row.drop_last() == a@.take(i as int),
                row.last() == a@[i as int],
                forall|m: int|
                    0 <= m <= n ==> prev@[m] == common_len(
                        a@.take(i as int),
                        #[trigger] b@.take(m),
                    ),
                forall|m: int|
                    0 <= m < j ==> curr@[m] == common_len(row, #[trigger] b@.take(m)),
            decreases n + 1 - j,
        {
            let ghost col = b@.take(j as int);
            proof {
                assert(col.drop_last() =~= b@.take(j - 1));
                assert(col.last() == b@[j - 1]);
                common_len_bound(a@.take(i as int), b@.take(j - 1));
                assert(prev@[j - 1] == common_len(a@.take(i as int), b@.take(j - 1)));
                assert(prev@[j as int] == common_len(a@.take(i as int), b@.take(j as int)));
                assert(curr@[j - 1] == common_len(row, b@.take(j - 1)));
            }
            let v: usize = if a[i] == b[j - 1] {
                prev[j - 1] + 1
            } else if prev[j] >= curr[j - 1] {
                prev[j]
            } else {
                curr[j - 1]
            };
            curr.push(v);
            j = j + 1;
        }
        prev = curr;
        i = i + 1;
    }
    proof {
        assert(a@.take(a.len() as int) =~= a@);
        assert(b@.take(n as int) =~= b@);
    }
    prev[n]
}

/// A name is more than half like another: more than half of the longer one is
/// common to both.
pub open spec fn similar(target: Seq<u8>, name: Seq<u8>) -> bool {
    2 * common_len(target, name) > longer(target, name)
}

/// One name is closer to a target than another: it has the greater part in
/// common.
pub open spec fn closer(target: Seq<u8>, name: Seq<u8>, than: Seq<u8>) -> bool {
    common_len(target, name) * longer(target, than) > common_len(target, than) * longer(
        target,
        name,
    )
}

/// The name that is closest to a target, the first of those that are equally
/// close, where any is similar to it.
pub open spec fn closest(target: Seq<u8>, names: Seq<Seq<u8>>) -> Option<int>
    decreases names.len(),
{
    if names.len() == 0 {
        None
    } else {
        let last = names.len() - 1;
        match closest(target, names.drop_last()) {
            None => if similar(target, names[last]) {
                Some(last)
            } else {
                None
            },
            Some(i) => if closer(target, names[last], names[i]) {
                Some(last)
            } else {
                Some(i)
            },
        }
    }
}

/// The closest name is one of the names, and similar to the target.
pub proof fn closest_is_similar(target: Seq<u8>, names: Seq<Seq<u8>>)
    ensures
        closest(target, names) is Some ==> 0 <= closest(target, names)->0 < names.len() && similar(
            target,
            names[closest(target, names)->0],
        ),
        closest(target, names) is None ==> forall|i: int|
            0 <= i < names.len() ==> !similar(target, #[trigger] names[i]),
    decreases names.len(),
{
    if names.len() > 0 {
        let h = names.drop_last();
        let last = names.len() - 1;
        closest_is_similar(target, h);
        match closest(target, h) {
            None => {
                if !similar(target, names[last]) {
                    assert forall|i: int| 0 <= i < names.len() implies !similar(
                        target,
                        #[trigger] names[i],
                    ) by {
                        if i < last {
                            assert(h[i] == names[i]);
                        }
                    }
                }
            },
            Some(i) => {
                let c = common_len(target, names[last]);
                let m = longer(target, names[last]);
                let c0 = common_len(target, names[i]);
                let m0 = longer(target, names[i]);
                if closer(target, names[last], names[i]) {
                    assert(2 * c > m) by (nonlinear_arith)
                        requires
                            c * m0 > c0 * m,
                            2 * c0 > m0,
                            c >= 0,
                            m >= 0,
                            m0 >= 0,
                    ;
                }
            },
        }
    }
}

/// The names in a listing.
pub open spec fn listed_names(s: Seq<DirEntryView>) -> Seq<Seq<u8>> {
    Seq::new(s.len(), |i: int| s[i].name)
}

/// Finds the file whose name is most like the target's.
pub fn closest_name(target: &[u8], listing: &[DirEntry]) -> (r: Option<usize>)
    requires
        forall|i: int| 0 <= i < listing.len() ==> (#[trigger] listing@[i]).name.len() < usize::MAX,
    ensures
        match r {
            Some(i) => closest(target@, listed_names(listing_views(listing@))) == Some(i as int),
            None => closest(target@, listed_names(listing_views(listing@))) is None,
        },
{
    let ghost names = listed_names(listing_views(listing@));
    let mut best: Option<usize> = None;
    let mut num: u128 = 0;
    let mut den: u128 = 0;
    let mut i: usize = 0;
    while i < listing.len()
        invariant
            i <= listing.len(),
            names == listed_names(listing_views(listing@)),
            forall|j: int|
                0 <= j < listing.len() ==> (#[trigger] listing@[j]).name.len() < usize::MAX,
            match best {
                Some(b) => closest(target@, names.take(i as int)) == Some(b as int) && b < i && num
                    == common_len(target@, names[b as int]) && den == longer(
                    target@,
                    names[b as int],
                ),
                None => closest(target@, names.take(i as int)) is None,
            },
        decreases listing.len() - i,
    {
        let name = listing[i].name.as_slice();
        let ghost nv = names[i as int];
        proof {
            assert(listing@[i as int].name.len() < usize::MAX);
            assert(nv == name@);
            let t = names.take(i + 1);
            assert(t.drop_last() =~= names.take(i as int));
            assert(t[i as int] == nv);
            common_len_bound(target@, nv);
        }
        let c: u128 = longest_common_subsequence_len(target, name) as u128;
        let m: u128 = if target.len() >= name.len() {
            target.len() as u128
        } else {
            name.len() as u128
        };
        let better = match best {
            None => 2 * c > m,
            Some(b) => {
                proof {
                    common_len_bound(target@, names[b as int]);
                    assert(names.take(i + 1)[b as int] == names[b as int]);
                    assert(c * den <= 0xFFFF_FFFF_FFFF_FFFF * 0xFFFF_FFFF_FFFF_FFFF)
                        by (nonlinear_arith)
                        requires
                            c <= 0xFFFF_FFFF_FFFF_FFFF,
                            den <= 0xFFFF_FFFF_FFFF_FFFF,
                    ;
                    assert(num * m <= 0xFFFF_FFFF_FFFF_FFFF * 0xFFFF_FFFF_FFFF_FFFF)
                        by (nonlinear_arith)
                        requires
                            num <= 0xFFFF_FFFF_FFFF_FFFF,
                            m <= 0xFFFF_FFFF_FFFF_FFFF,
                    ;
                }
                c * den > num * m
            },
        };
        if better {
            best = Some(i);
            num = c;
            den = m;
        }
        i = i + 1;
    }
    assert(names.take(i as int) =~= names);
    best
}

/// A listed file has the size and the time of an entry.
pub open spec fn exact_match(e: EntryView, d: DirEntryView) -> bool {
    d.metadata.len == e.len && d.metadata.mtime == e.mtime
}

/// Finds the next file from a place on that has the size and the time of an
/// entry.
pub fn next_exact_match(entry: &FileEntry, listing: &[DirEntry], from: usize) -> (r: Option<usize>)
    requires
        from <= listing.len(),
    ensures
        match r {
            Some(i) => from <= i < listing.len() && exact_match(entry@, listing@[i as int]@)
                && forall|j: int|
                from <= j < i ==> !exact_match(entry@, (#[trigger] listing@[j])@),
            None => forall|j: int|
                from <= j < listing.len() ==> !exact_match(entry@, (#[trigger] listing@[j])@),
        },
{
    let mut i: usize = from;
    while i < listing.len()
        invariant
            from <= i <= listing.len(),
            forall|j: int| from <= j < i ==> !exact_match(entry@, (#[trigger] listing@[j])@),
        decreases listing.len() - i,
    {
        if listing[i].metadata.len == entry.len && listing[i].metadata.mtime == entry.mtime {
            return Some(i);
        }
        i = i + 1;
    }
    None
}

} // verus!

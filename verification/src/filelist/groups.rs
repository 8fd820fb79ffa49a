//! Groups of entries that are one file.
//!
//! Entries that are hard links of each other hold the same identity. All but
//! the first of them are told the name of the first one.

use std::collections::HashMap;

use vstd::prelude::*;

use crate::filelist::codec::hlink::{link_key, link_key_is_unique, make_link_key};
use crate::filelist::entry::{copy_bytes, entry_views, EntryView, FileEntry, HardLinkInfo};

verus! {

broadcast use vstd::std_specs::hash::group_hash_axioms;

/// The identities that entries hold.
pub open spec fn link_infos(es: Seq<EntryView>) -> Seq<Option<HardLinkInfo>> {
    Seq::new(es.len(), |i: int| es[i].hard_link_info)
}

/// A file has more than one name.
pub open spec fn shared(info: Option<HardLinkInfo>) -> bool {
    info is Some && info->0.nlink > 1
}

/// Two names are those of one file.
pub open spec fn same_file(a: Option<HardLinkInfo>, b: Option<HardLinkInfo>) -> bool {
    &&& shared(a)
    &&& shared(b)
    &&& a->0.dev == b->0.dev
    &&& a->0.ino == b->0.ino
}

/// The first place from another one on that holds the same file.
pub open spec fn first_shared(
    infos: Seq<Option<HardLinkInfo>>,
    info: Option<HardLinkInfo>,
    from: int,
) -> int
    decreases infos.len() - from,
{
    if from >= infos.len() || same_file(infos[from], info) {
        from
    } else {
        first_shared(infos, info, from + 1)
    }
}

/// The place of the earlier name of the file at a place, where there is one.
pub open spec fn earlier_name(infos: Seq<Option<HardLinkInfo>>, i: int) -> Option<int> {
    let first = first_shared(infos, infos[i], 0);
    if shared(infos[i]) && first < i {
        Some(first)
    } else {
        None
    }
}

/// An entry that knows of which earlier entry it is a link.
pub open spec fn grouped_entry(es: Seq<EntryView>, i: int) -> EntryView {
    match earlier_name(link_infos(es), i) {
        Some(first) => EntryView { hlink_source: Some(es[first].name), ..es[i] },
        None => es[i],
    }
}

/// All but the first entry of each file know the first one's name.
pub open spec fn grouped_entries(es: Seq<EntryView>) -> Seq<EntryView> {
    Seq::new(es.len(), |i: int| grouped_entry(es, i))
}

/// The first of equal files lies before every one of them, and is one itself.
pub proof fn first_shared_is_first(
    infos: Seq<Option<HardLinkInfo>>,
    info: Option<HardLinkInfo>,
    from: int,
    i: int,
)
    requires
        0 <= from <= i < infos.len(),
        same_file(infos[i], info),
    ensures
        from <= first_shared(infos, info, from) <= i,
        same_file(infos[first_shared(infos, info, from)], info),
        forall|j: int|
            from <= j < first_shared(infos, info, from) ==> !same_file(#[trigger] infos[j], info),
    decreases i - from,
{
    if !same_file(infos[from], info) {
        first_shared_is_first(infos, info, from + 1, i);
    }
}

/// What is the same file has the same first place.
proof fn same_first(
    infos: Seq<Option<HardLinkInfo>>,
    a: Option<HardLinkInfo>,
    b: Option<HardLinkInfo>,
    from: int,
)
    requires
        same_file(a, b),
    ensures
        first_shared(infos, a, from) == first_shared(infos, b, from),
    decreases infos.len() - from,
{
    if from < infos.len() && !same_file(infos[from], a) {
        same_first(infos, a, b, from + 1);
    }
}

/// Entries that were grouped stay as they are when they are grouped again.
pub proof fn grouping_again_changes_nothing(es: Seq<EntryView>)
    ensures
        grouped_entries(grouped_entries(es)) == grouped_entries(es),
{
    let once = grouped_entries(es);
    assert(link_infos(once) =~= link_infos(es));
    assert forall|i: int| 0 <= i < es.len() implies grouped_entry(once, i) == #[trigger] once[i] by {
        let infos = link_infos(es);
        if earlier_name(infos, i) is Some {
            first_shared_is_first(infos, infos[i], 0, i);
        }
    }
    assert(grouped_entries(once) =~= once);
}

/// Where the earlier name of each file stands, if it has one.
pub(crate) fn earlier_names(infos: &Vec<Option<HardLinkInfo>>) -> (r: Vec<Option<usize>>)
    ensures
        r@.len() == infos@.len(),
        forall|i: int|
            0 <= i < r@.len() ==> (match #[trigger] r@[i] {
                Some(f) => earlier_name(infos@, i) == Some(f as int) && f < i,
                None => earlier_name(infos@, i) is None,
            }),
{
    let mut first: HashMap<u128, usize> = HashMap::new();
    let mut out: Vec<Option<usize>> = Vec::new();
    let mut i: usize = 0;
    while i < infos.len()
        invariant
            i <= infos.len(),
            out.len() == i,
            forall|j: int|
                0 <= j < i ==> (match #[trigger] out@[j] {
                    Some(f) => earlier_name(infos@, j) == Some(f as int) && f < j,
                    None => earlier_name(infos@, j) is None,
                }),
            forall|k: u128| #[trigger]
                first@.dom().contains(k) ==> first@[k] < i && shared(infos@[first@[k] as int])
                    && link_key(
                    infos@[first@[k] as int]->0.dev,
                    infos@[first@[k] as int]->0.ino,
                ) == k && first_shared(infos@, infos@[first@[k] as int], 0) == first@[k],
            forall|j: int|
                0 <= j < i && shared(#[trigger] infos@[j]) ==> first@.dom().contains(
                    link_key(infos@[j]->0.dev, infos@[j]->0.ino),
                ),
        decreases infos.len() - i,
    {
        let mut found: Option<usize> = None;
        match infos[i] {
            Some(link) => {
                if link.nlink > 1 {
                    let ghost info = infos@[i as int];
                    let key = make_link_key(link.dev, link.ino);
                    proof {
                        first_shared_is_first(infos@, info, 0, i as int);
                    }
                    match first.get(&key) {
                        Some(f) => {
                            found = Some(*f);
                        },
                        None => {},
                    }
                    match found {
                        Some(f) => {
                            proof {
                                let g = infos@[f as int];
                                link_key_is_unique(g->0.dev, g->0.ino, link.dev, link.ino);
                                same_first(infos@, g, info, 0);
                            }
                        },
                        None => {
                            proof {
                                let f = first_shared(infos@, info, 0);
                                if f < i {
                                    assert(shared(infos@[f]));
                                    assert(first@.dom().contains(key));
                                }
                                assert(f == i);
                            }
                            first.insert(key, i);
                        },
                    }
                }
            },
            None => {},
        }
        out.push(found);
        i = i + 1;
    }
    out
}

/// Tells all but the first entry of each file the first one's name.
pub(crate) fn group_entries(entries: &mut Vec<FileEntry>)
    ensures
        entry_views(final(entries)@) == grouped_entries(entry_views(old(entries)@)),
{
    let ghost all = entry_views(entries@);
    let n: usize = entries.len();
    let mut infos: Vec<Option<HardLinkInfo>> = Vec::new();
    let mut k: usize = 0;
    while k < n
        invariant
            k <= n,
            n == entries.len(),
            infos.len() == k,
            all == entry_views(entries@),
            forall|j: int| 0 <= j < k ==> #[trigger] infos@[j] == all[j].hard_link_info,
        decreases n - k,
    {
        assert(entries@[k as int]@ == all[k as int]);
        infos.push(entries[k].hard_link_info);
        k = k + 1;
    }
    assert(infos@ =~= link_infos(all));
    let names = earlier_names(&infos);
    let mut i: usize = 0;
    while i < n
        invariant
            i <= n,
            n == entries.len(),
            n == all.len(),
            n == names.len(),
            forall|j: int|
                0 <= j < n ==> (match #[trigger] names@[j] {
                    Some(f) => earlier_name(link_infos(all), j) == Some(f as int) && f < j,
                    None => earlier_name(link_infos(all), j) is None,
                }),
            forall|j: int| 0 <= j < i ==> (#[trigger] entries@[j])@ == grouped_entry(all, j),
            forall|j: int| i <= j < n ==> (#[trigger] entries@[j])@ == all[j],
            forall|j: int| 0 <= j < n ==> (#[trigger] entries@[j]).name@ == all[j].name,
        decreases n - i,
    {
        assert(entries@[i as int]@ == all[i as int]);
        match names[i] {
            Some(f) => {
                let name = copy_bytes(entries[f].name.as_slice());
                let entry = &mut entries[i];
                entry.hlink_source = Some(name);
                assert(entries@[i as int]@ =~= grouped_entry(all, i as int));
            },
            None => {},
        }
        i = i + 1;
    }
    assert(entry_views(entries@) =~= grouped_entries(all));
}

} // verus!

//! Delete extraneous files on the receiver.

use vstd::prelude::*;

use crate::filelist::entry::{copy_bytes, entry_views, same_bytes, EntryView, FileEntry};
use crate::filter::pattern::has_byte;
use crate::filter::rule::{passes, FilterRuleList, RuleView};
use crate::fs::metadata::{is_directory, DirEntry, DirEntryView};
use crate::fs::plan::{may, must, push_step, step_views, FsAction, FsActionView, Step, StepView};
use crate::options::path_views;
use crate::path::{join_path, joined};

verus! {

/// The views of directory entries.
pub open spec fn listing_views(s: Seq<DirEntry>) -> Seq<DirEntryView> {
    Seq::new(s.len(), |i: int| s[i]@)
}

/// An entry of the destination has to go: the source does not have it, and no
/// filter rule protects it.
pub open spec fn doomed(
    d: DirEntryView,
    keep: Seq<Seq<u8>>,
    rules: Seq<RuleView>,
    delete_excluded: bool,
) -> bool {
    !keep.contains(d.name) && (delete_excluded || passes(rules, d.name, is_directory(d.metadata)))
}

/// The step that removes an entry.
pub open spec fn removal(dest: Seq<u8>, d: DirEntryView) -> StepView {
    let path = joined(dest, d.name);
    may(
        if is_directory(d.metadata) {
            FsActionView::RemoveDir { path }
        } else {
            FsActionView::RemoveFile { path }
        },
    )
}

/// The entries that have to go, in the order of the listing.
pub open spec fn extraneous(
    listing: Seq<DirEntryView>,
    keep: Seq<Seq<u8>>,
    rules: Seq<RuleView>,
    delete_excluded: bool,
) -> Seq<DirEntryView> {
    listing.filter(|d: DirEntryView| doomed(d, keep, rules, delete_excluded))
}

/// The steps that remove entries; none in a dry run.
pub open spec fn removals(
    dest: Seq<u8>,
    gone: Seq<DirEntryView>,
    dry_run: bool,
) -> Seq<StepView> {
    if dry_run {
        Seq::empty()
    } else {
        Seq::new(gone.len(), |i: int| removal(dest, gone[i]))
    }
}

/// The names of entries.
pub open spec fn names_of(entries: Seq<EntryView>) -> Seq<Seq<u8>> {
    Seq::new(entries.len(), |i: int| entries[i].name)
}

/// What an entry is called inside a directory, where it is directly in it.
pub open spec fn child_name(name: Seq<u8>, dir: Seq<u8>) -> Option<Seq<u8>> {
    if dir == seq![0x2Eu8] {
        if name.contains(0x2Fu8) || name == seq![0x2Eu8] {
            None
        } else {
            Some(name)
        }
    } else if name.len() > dir.len() && name.take(dir.len() as int) == dir && name[dir.len() as int]
        == 0x2F && !name.skip(dir.len() as int + 1).contains(0x2Fu8) {
        Some(name.skip(dir.len() as int + 1))
    } else {
        None
    }
}

/// What the entries directly in a directory are called there.
pub open spec fn children_of(entries: Seq<EntryView>, dir: Seq<u8>) -> Seq<Seq<u8>>
    decreases entries.len(),
{
    if entries.len() == 0 {
        Seq::empty()
    } else {
        let before = children_of(entries.drop_last(), dir);
        match child_name(entries.last().name, dir) {
            Some(n) => before.push(n),
            None => before,
        }
    }
}

/// What the source has is never removed.
pub proof fn source_is_kept(
    listing: Seq<DirEntryView>,
    keep: Seq<Seq<u8>>,
    rules: Seq<RuleView>,
    delete_excluded: bool,
    i: int,
)
    requires
        0 <= i < extraneous(listing, keep, rules, delete_excluded).len(),
    ensures
        !keep.contains(extraneous(listing, keep, rules, delete_excluded)[i].name),
        listing.contains(extraneous(listing, keep, rules, delete_excluded)[i]),
{
    let pred = |d: DirEntryView| doomed(d, keep, rules, delete_excluded);
    listing.lemma_filter_pred(pred, i);
    listing.lemma_filter_contains_rev(pred, listing.filter(pred)[i]);
}

fn has_name(names: &Vec<Vec<u8>>, name: &[u8]) -> (r: bool)
    ensures
        r == path_views(names@).contains(name@),
{
    let ghost v = path_views(names@);
    let mut i: usize = 0;
    while i < names.len()
        invariant
            i <= names.len(),
            v == path_views(names@),
            forall|j: int| 0 <= j < i ==> v[j] != name@,
        decreases names.len() - i,
    {
        if same_bytes(names[i].as_slice(), name) {
            assert(v[i as int] == name@);
            return true;
        }
        i = i + 1;
    }
    false
}

/// Removes what is neither kept nor protected.
pub(crate) fn delete_unlisted(
    dest: &[u8],
    listing: &[DirEntry],
    keep: &Vec<Vec<u8>>,
    filters: &FilterRuleList,
    dry_run: bool,
    delete_excluded: bool,
) -> (r: (Vec<Step>, u64))
    requires
        listing.len() <= u64::MAX,
    ensures
        step_views(r.0@) == removals(
            dest@,
            extraneous(listing_views(listing@), path_views(keep@), filters@.rules, delete_excluded),
            dry_run,
        ),
        r.1 == extraneous(
            listing_views(listing@),
            path_views(keep@),
            filters@.rules,
            delete_excluded,
        ).len(),
{
    let ghost all = listing_views(listing@);
    let ghost names = path_views(keep@);
    let ghost rules = filters@.rules;
    let ghost pred = |d: DirEntryView| doomed(d, names, rules, delete_excluded);
    let mut steps: Vec<Step> = Vec::new();
    let mut deleted: u64 = 0;
    let mut i: usize = 0;
    proof {
        reveal(Seq::filter);
        assert(all.take(0).filter(pred) =~= Seq::<DirEntryView>::empty());
        assert(step_views(steps@) =~= removals(dest@, all.take(0).filter(pred), dry_run));
    }
    while i < listing.len()
        invariant
            i <= listing.len(),
            listing.len() <= u64::MAX,
            all == listing_views(listing@),
            names == path_views(keep@),
            rules == filters@.rules,
            pred == (|d: DirEntryView| doomed(d, names, rules, delete_excluded)),
            step_views(steps@) == removals(dest@, all.take(i as int).filter(pred), dry_run),
            deleted == all.take(i as int).filter(pred).len(),
            deleted <= i,
        decreases listing.len() - i,
    {
        let d = &listing[i];
        let ghost dv = d@;
        let ghost had = all.take(i as int).filter(pred);
        proof {
            reveal(Seq::filter);
            let t = all.take(i + 1);
            assert(t.drop_last() =~= all.take(i as int));
            assert(t.last() == dv);
            assert(t.filter(pred) == (if pred(dv) {
                had.push(dv)
            } else {
                had
            }));
        }
        i = i + 1;
        if has_name(keep, d.name.as_slice()) {
            continue ;
        }
        let is_dir = d.metadata.is_dir();
        if !delete_excluded && !filters.is_included(d.name.as_slice(), is_dir) {
            continue ;
        }
        if !dry_run {
            let path = join_path(dest, d.name.as_slice());
            if is_dir {
                push_step(&mut steps, FsAction::RemoveDir { path }, false);
            } else {
                push_step(&mut steps, FsAction::RemoveFile { path }, false);
            }
            assert(step_views(steps@) =~= removals(dest@, had.push(dv), dry_run));
        }
        deleted = deleted + 1;
    }
    assert(all.take(i as int) =~= all);
    (steps, deleted)
}

/// The names of entries.
pub(crate) fn all_names(source_entries: &[FileEntry]) -> (r: Vec<Vec<u8>>)
    ensures
        path_views(r@) == names_of(entry_views(source_entries@)),
{
    let mut keep: Vec<Vec<u8>> = Vec::new();
    let mut i: usize = 0;
    while i < source_entries.len()
        invariant
            i <= source_entries.len(),
            keep.len() == i,
            forall|j: int| 0 <= j < i ==> (#[trigger] keep@[j])@ == source_entries@[j].name@,
        decreases source_entries.len() - i,
    {
        let n = copy_bytes(source_entries[i].name.as_slice());
        keep.push(n);
        i = i + 1;
    }
    assert(path_views(keep@) =~= names_of(entry_views(source_entries@)));
    keep
}

/// Delete files on the receiver that don't exist in the source file list.
///
/// `listing` is what the destination holds, where it could be read. Returns the
/// steps to take and how many files were or would be deleted.
pub fn delete_extraneous(
    dest: &[u8],
    listing: Option<&[DirEntry]>,
    source_entries: &[FileEntry],
    filters: &FilterRuleList,
    dry_run: bool,
    delete_excluded: bool,
) -> (r: (Vec<Step>, u64))
    requires
        listing is Some ==> listing->0.len() <= u64::MAX,
    ensures
        ({
            let gone = match listing {
                Some(l) => extraneous(
                    listing_views(l@),
                    names_of(entry_views(source_entries@)),
                    filters@.rules,
                    delete_excluded,
                ),
                None => Seq::empty(),
            };
            step_views(r.0@) == removals(dest@, gone, dry_run) && r.1 == gone.len()
        }),
{
    match listing {
        Some(l) => {
            let keep = all_names(source_entries);
            delete_unlisted(dest, l, &keep, filters, dry_run, delete_excluded)
        },
        None => {
            let steps: Vec<Step> = Vec::new();
            assert(step_views(steps@) =~= removals(dest@, Seq::empty(), dry_run));
            (steps, 0)
        },
    }
}

/// What an entry is called inside a directory, where it is directly in it.
fn name_in_dir(name: &[u8], dir: &[u8]) -> (r: Option<Vec<u8>>)
    ensures
        match r {
            Some(n) => child_name(name@, dir@) == Some(n@),
            None => child_name(name@, dir@) is None,
        },
{
    if dir.len() == 1 && dir[0] == 0x2E {
        assert(dir@ =~= seq![0x2Eu8]);
        if has_byte(name, 0x2F) {
            return None;
        }
        if name.len() == 1 && name[0] == 0x2E {
            assert(name@ =~= seq![0x2Eu8]);
            return None;
        }
        assert(name@ != seq![0x2Eu8]);
        return Some(copy_bytes(name));
    }
    assert(dir@ != seq![0x2Eu8]);
    if name.len() <= dir.len() {
        return None;
    }
    let start = vstd::slice::slice_subrange(name, 0, dir.len());
    assert(start@ =~= name@.take(dir.len() as int));
    if !same_bytes(start, dir) || name[dir.len()] != 0x2F {
        return None;
    }
    let rest = vstd::slice::slice_subrange(name, dir.len() + 1, name.len());
    assert(rest@ =~= name@.skip(dir.len() as int + 1));
    if has_byte(rest, 0x2F) {
        None
    } else {
        Some(copy_bytes(rest))
    }
}

/// What the entries directly in a directory are called there.
pub(crate) fn child_names(source_entries: &[FileEntry], dir_name: &[u8]) -> (r: Vec<Vec<u8>>)
    ensures
        path_views(r@) == children_of(entry_views(source_entries@), dir_name@),
{
    let ghost all = entry_views(source_entries@);
    let mut keep: Vec<Vec<u8>> = Vec::new();
    let mut i: usize = 0;
    assert(path_views(keep@) =~= children_of(all.take(0), dir_name@));
    while i < source_entries.len()
        invariant
            i <= source_entries.len(),
            all == entry_views(source_entries@),
            path_views(keep@) == children_of(all.take(i as int), dir_name@),
        decreases source_entries.len() - i,
    {
        proof {
            assert(all.take(i + 1).drop_last() =~= all.take(i as int));
            assert(all.take(i + 1).last().name == source_entries@[i as int].name@);
        }
        let ghost had = path_views(keep@);
        match name_in_dir(source_entries[i].name.as_slice(), dir_name) {
            Some(n) => {
                let ghost nv = n@;
                keep.push(n);
                assert(path_views(keep@) =~= had.push(nv));
            },
            None => {},
        }
        i = i + 1;
    }
    assert(all.take(i as int) =~= all);
    keep
}

/// Delete extraneous files within a specific directory (for --delete-during).
///
/// `listing` is what the directory holds, where it could be read.
pub fn delete_extraneous_in_dir(
    dest_dir: &[u8],
    listing: Option<&[DirEntry]>,
    source_entries: &[FileEntry],
    dir_name: &[u8],
    filters: &FilterRuleList,
    dry_run: bool,
    delete_excluded: bool,
) -> (r: (Vec<Step>, u64))
    requires
        listing is Some ==> listing->0.len() <= u64::MAX,
    ensures
        ({
            let gone = match listing {
                Some(l) => extraneous(
                    listing_views(l@),
                    children_of(entry_views(source_entries@), dir_name@),
                    filters@.rules,
                    delete_excluded,
                ),
                None => Seq::empty(),
            };
            step_views(r.0@) == removals(dest_dir@, gone, dry_run) && r.1 == gone.len()
        }),
{
    match listing {
        Some(l) => {
            let keep = child_names(source_entries, dir_name);
            delete_unlisted(dest_dir, l, &keep, filters, dry_run, delete_excluded)
        },
        None => {
            let steps: Vec<Step> = Vec::new();
            assert(step_views(steps@) =~= removals(dest_dir@, Seq::empty(), dry_run));
            (steps, 0)
        },
    }
}

// ---------------------------------------------------------------------------
// A limit on what is deleted
// ---------------------------------------------------------------------------

/// How many of a number of deletions a limit lets through.
pub open spec fn within(count: nat, max: Option<u64>) -> nat {
    match max {
        Some(m) => if m < count {
            m as nat
        } else {
            count
        },
        None => count,
    }
}

/// The first of deletions, as many as a limit lets through (`--max-delete`), and
/// how many files they delete. In a dry run there are only the files to count.
pub fn limit_deletions(steps: Vec<Step>, deleted: u64, max: Option<u64>) -> (r: (Vec<Step>, u64))
    ensures
        step_views(r.0@) == step_views(steps@).take(within(steps@.len(), max) as int),
        r.1 == within(deleted as nat, max),
{
    let ghost all = step_views(steps@);
    let mut steps = steps;
    match max {
        Some(m) => {
            if m < steps.len() as u64 {
                steps.truncate(m as usize);
            }
            assert(step_views(steps@) =~= all.take(within(all.len(), max) as int));
            (steps, if m < deleted {
                m
            } else {
                deleted
            })
        },
        None => {
            assert(step_views(steps@) =~= all.take(all.len() as int));
            (steps, deleted)
        },
    }
}

// ---------------------------------------------------------------------------
// Empty directories
// ---------------------------------------------------------------------------

/// What a directory holds, all the way down.
#[derive(Debug)]
pub struct DirTree {
    pub name: Vec<u8>,
    pub is_dir: bool,
    pub children: Vec<DirTree>,
}

/// The directories below one that hold nothing but such directories, each behind
/// what it holds, and whether that leaves nothing; of the first things in it.
pub open spec fn prunable(dir: DirTree, n: nat, path: Seq<u8>) -> (Seq<Seq<u8>>, bool)
    decreases dir, n,
{
    if n == 0 || n > dir.children@.len() {
        (Seq::empty(), true)
    } else {
        let (before, bare) = prunable(dir, (n - 1) as nat, path);
        let child = dir.children@[n - 1];
        let at = joined(path, child.name@);
        if !child.is_dir {
            (before, false)
        } else {
            let (inside, empty) = prunable(child, child.children@.len(), at);
            if empty {
                (before + inside.push(at), bare)
            } else {
                (before + inside, false)
            }
        }
    }
}

/// A directory holds a file somewhere, among the first things in it.
pub open spec fn holds_file(dir: DirTree, n: nat) -> bool
    decreases dir, n,
{
    if n == 0 || n > dir.children@.len() {
        false
    } else {
        let child = dir.children@[n - 1];
        holds_file(dir, (n - 1) as nat) || !child.is_dir || holds_file(child, child.children@.len())
    }
}

/// A directory goes exactly where no file lies anywhere below it.
pub proof fn pruned_where_no_file_is(dir: DirTree, n: nat, path: Seq<u8>)
    ensures
        prunable(dir, n, path).1 == !holds_file(dir, n),
    decreases dir, n,
{
    if 0 < n <= dir.children@.len() {
        pruned_where_no_file_is(dir, (n - 1) as nat, path);
        let child = dir.children@[n - 1];
        pruned_where_no_file_is(child, child.children@.len(), joined(path, child.name@));
    }
}

/// The steps that remove directories.
pub open spec fn dir_removals(paths: Seq<Seq<u8>>) -> Seq<StepView> {
    Seq::new(paths.len(), |i: int| must(FsActionView::RemoveDir { path: paths[i] }))
}

/// The steps that remove the empty directories below one, the deepest first, and
/// how many there are. A dry run only counts them.
pub fn prune_empty_dirs(tree: &DirTree, path: &[u8], dry_run: bool) -> (r: (Vec<Step>, u64))
    ensures
        ({
            let gone = prunable(*tree, tree.children@.len(), path@).0;
            step_views(r.0@) == dir_removals(
                if dry_run {
                    Seq::empty()
                } else {
                    gone
                },
            ) && r.1 == gone.len()
        }),
{
    let mut gone: Vec<Vec<u8>> = Vec::new();
    assert(path_views(gone@) =~= Seq::empty());
    push_prunable(tree, path, &mut gone);
    let ghost all = path_views(gone@);
    assert(all =~= prunable(*tree, tree.children@.len(), path@).0);
    let count: u64 = gone.len() as u64;
    let mut steps: Vec<Step> = Vec::new();
    assert(step_views(steps@) =~= Seq::empty());
    if dry_run {
        assert(dir_removals(Seq::empty()) =~= Seq::empty());
        return (steps, count);
    }
    for p in it: gone.into_iter()
        invariant
            path_views(it.seq()) == all,
            step_views(steps@) == dir_removals(all.take(it.index() as int)),
    {
        let ghost i = it.index() as int;
        let ghost had = step_views(steps@);
        assert(p@ == all[i]);
        push_step(&mut steps, FsAction::RemoveDir { path: p }, true);
        assert(step_views(steps@) =~= dir_removals(all.take(i + 1)));
    }
    assert(all.take(all.len() as int) =~= all);
    (steps, count)
}

fn push_prunable(dir: &DirTree, path: &[u8], out: &mut Vec<Vec<u8>>) -> (bare: bool)
    ensures
        ({
            let (gone, empty) = prunable(*dir, dir.children@.len(), path@);
            path_views(final(out)@) == path_views(old(out)@) + gone && bare == empty
        }),
    decreases dir,
{
    let ghost had = path_views(out@);
    let mut bare = true;
    let mut i: usize = 0;
    assert(had + Seq::<Seq<u8>>::empty() =~= had);
    while i < dir.children.len()
        invariant
            i <= dir.children.len(),
            path_views(out@) == had + prunable(*dir, i as nat, path@).0,
            bare == prunable(*dir, i as nat, path@).1,
        decreases dir.children.len() - i,
    {
        let child = &dir.children[i];
        let ghost before = prunable(*dir, i as nat, path@).0;
        if child.is_dir {
            let at = join_path(path, child.name.as_slice());
            let ghost inside = prunable(*child, child.children@.len(), at@).0;
            let empty = push_prunable(child, at.as_slice(), out);
            assert(path_views(out@) =~= had + (before + inside));
            if empty {
                let ghost now = path_views(out@);
                let ghost av = at@;
                out.push(at);
                assert(path_views(out@) =~= now.push(av));
                assert(path_views(out@) =~= had + (before + inside.push(av)));
            } else {
                bare = false;
            }
        } else {
            bare = false;
        }
        i = i + 1;
    }
    bare
}

} // verus!

//! What is deleted, and what is not.

use vstd::prelude::*;

use crate::engine::delete::{
    child_name, children_of, doomed, extraneous, names_of, prunable, removals, within, DirTree,
};
use crate::filelist::entry::EntryView;
use crate::filter::pattern::pattern_matches;
use crate::filter::rule::{first_match_decides, no_match_passes, FilterAction, RuleView};
use crate::fs::metadata::DirEntryView;
use crate::fs::plan::FsActionView;
use crate::path::joined;

verus! {

/// An entry of a directory is itself a directory.
pub open spec fn is_dir_entry(d: DirEntryView) -> bool {
    d.metadata.mode & 0o170000 == 0o040000
}

/// A rule is the first that matches an entry.
pub open spec fn first_for(rules: Seq<RuleView>, k: int, d: DirEntryView) -> bool {
    &&& 0 <= k < rules.len()
    &&& pattern_matches(rules[k].pattern, d.name, is_dir_entry(d))
    &&& forall|j: int|
        0 <= j < k ==> !pattern_matches(#[trigger] rules[j].pattern, d.name, is_dir_entry(d))
}

/// What the first rule that matches it leaves out is protected: it is not
/// deleted, unless excluded files are deleted too. A directory is matched as a
/// directory.
pub proof fn excluded_is_protected(
    listing: Seq<DirEntryView>,
    keep: Seq<Seq<u8>>,
    rules: Seq<RuleView>,
    d: DirEntryView,
    k: int,
)
    requires
        first_for(rules, k, d),
        rules[k].action == FilterAction::Exclude,
    ensures
        !extraneous(listing, keep, rules, false).contains(d),
{
    first_match_decides(rules, k, d.name, is_dir_entry(d));
    let gone = extraneous(listing, keep, rules, false);
    if gone.contains(d) {
        let i = gone.index_of(d);
        listing.lemma_filter_pred(|x: DirEntryView| doomed(x, keep, rules, false), i);
    }
}

/// What the source lacks is deleted, where no rule matches it or the first one
/// that does lets it in.
pub proof fn unprotected_is_deleted(
    listing: Seq<DirEntryView>,
    keep: Seq<Seq<u8>>,
    rules: Seq<RuleView>,
    i: int,
    k: int,
    delete_excluded: bool,
)
    requires
        0 <= i < listing.len(),
        !keep.contains(listing[i].name),
        (first_for(rules, k, listing[i]) && rules[k].action == FilterAction::Include) || (forall|
            j: int,
        |
            0 <= j < rules.len() ==> !pattern_matches(
                #[trigger] rules[j].pattern,
                listing[i].name,
                is_dir_entry(listing[i]),
            )),
    ensures
        extraneous(listing, keep, rules, delete_excluded).contains(listing[i]),
{
    let d = listing[i];
    if first_for(rules, k, d) {
        first_match_decides(rules, k, d.name, is_dir_entry(d));
    }
    if forall|j: int|
        0 <= j < rules.len() ==> !pattern_matches(
            #[trigger] rules[j].pattern,
            d.name,
            is_dir_entry(d),
        ) {
        no_match_passes(rules, d.name, is_dir_entry(d));
    }
    listing.lemma_filter_contains(
        |x: DirEntryView| doomed(x, keep, rules, delete_excluded),
        i,
    );
}

/// Where excluded files are deleted too, all that the source lacks is deleted,
/// and the rules do not matter.
pub proof fn rules_do_not_matter_to_excluded(
    listing: Seq<DirEntryView>,
    keep: Seq<Seq<u8>>,
    a: Seq<RuleView>,
    b: Seq<RuleView>,
    i: int,
)
    requires
        0 <= i < listing.len(),
    ensures
        extraneous(listing, keep, a, true) == extraneous(listing, keep, b, true),
        extraneous(listing, keep, a, true).contains(listing[i]) <==> !keep.contains(
            listing[i].name,
        ),
{
    let p = |x: DirEntryView| doomed(x, keep, a, true);
    let q = |x: DirEntryView| doomed(x, keep, b, true);
    assert(p =~= q);
    let gone = extraneous(listing, keep, a, true);
    if gone.contains(listing[i]) {
        listing.lemma_filter_pred(p, gone.index_of(listing[i]));
    }
    if !keep.contains(listing[i].name) {
        listing.lemma_filter_contains(p, i);
    }
}

/// Each deleted entry has one step, in the order of the entries. It removes what
/// has the entry's name in the directory, as a directory or as a file, and may
/// fail. A dry run has no step.
pub proof fn each_deletion_is_one_step(dest: Seq<u8>, gone: Seq<DirEntryView>, i: int)
    requires
        0 <= i < gone.len(),
    ensures
        removals(dest, gone, true).len() == 0,
        removals(dest, gone, false).len() == gone.len(),
        ({
            let step = removals(dest, gone, false)[i];
            &&& !step.required
            &&& is_dir_entry(gone[i]) ==> step.action == (FsActionView::RemoveDir {
                path: joined(dest, gone[i].name),
            })
            &&& !is_dir_entry(gone[i]) ==> step.action == (FsActionView::RemoveFile {
                path: joined(dest, gone[i].name),
            })
        }),
{
}

/// The names that are kept in a directory are those of the entries directly in
/// it: the directory's name, a slash, and a name without one.
pub proof fn kept_names_lie_directly_inside(es: Seq<EntryView>, dir: Seq<u8>, n: Seq<u8>)
    requires
        dir != seq![0x2Eu8],
    ensures
        children_of(es, dir).contains(n) <==> !n.contains(0x2Fu8) && names_of(es).contains(
            dir + seq![0x2Fu8] + n,
        ),
    decreases es.len(),
{
    if es.len() > 0 {
        let h = es.drop_last();
        let name = es.last().name;
        let full = dir + seq![0x2Fu8] + n;
        kept_names_lie_directly_inside(h, dir, n);
        let before = children_of(h, dir);
        let k = dir.len() as int;
        if names_of(h).contains(full) {
            let j = names_of(h).index_of(full);
            assert(names_of(es)[j] == full);
        }
        if name == full {
            assert(names_of(es)[es.len() - 1] == full);
            assert(full.take(k) =~= dir);
            assert(full.skip(k + 1) =~= n);
            if !n.contains(0x2Fu8) {
                assert(child_name(name, dir) == Some(n));
                assert(before.push(n)[before.len() as int] == n);
            }
        }
        if names_of(es).contains(full) && name != full {
            let j = names_of(es).index_of(full);
            assert(names_of(h)[j] == full);
        }
        match child_name(name, dir) {
            Some(c) => {
                assert(name =~= dir + seq![0x2Fu8] + c);
                assert(before.push(c)[before.len() as int] == c);
                assert forall|j: int| 0 <= j < before.len() implies before.push(c)[j] == before[j] by {}
                if before.contains(n) {
                    let j = before.index_of(n);
                    assert(before.push(c)[j] == n);
                }
                if before.push(c).contains(n) && n != c {
                    let j = before.push(c).index_of(n);
                    assert(before[j] == n);
                }
            },
            None => {},
        }
    }
}

/// In the root of a transfer the names without a slash are kept, but for the
/// root's own.
pub proof fn kept_names_of_the_root(es: Seq<EntryView>, n: Seq<u8>)
    ensures
        children_of(es, seq![0x2Eu8]).contains(n) <==> !n.contains(0x2Fu8) && n != seq![0x2Eu8]
            && names_of(es).contains(n),
    decreases es.len(),
{
    if es.len() > 0 {
        let h = es.drop_last();
        let name = es.last().name;
        let dir = seq![0x2Eu8];
        kept_names_of_the_root(h, n);
        let before = children_of(h, dir);
        if names_of(h).contains(n) {
            assert(names_of(es)[names_of(h).index_of(n)] == n);
        }
        if name == n {
            assert(names_of(es)[es.len() - 1] == n);
        }
        if names_of(es).contains(n) && name != n {
            assert(names_of(h)[names_of(es).index_of(n)] == n);
        }
        match child_name(name, dir) {
            Some(c) => {
                assert(before.push(c)[before.len() as int] == c);
                if before.contains(n) {
                    assert(before.push(c)[before.index_of(n)] == n);
                }
                if before.push(c).contains(n) && n != c {
                    assert(before[before.push(c).index_of(n)] == n);
                }
            },
            None => {},
        }
    }
}

/// A limit lets through no more than itself, no more than there is, and all of
/// one of the two.
pub proof fn limit_lets_through_what_it_can(count: nat, max: Option<u64>)
    ensures
        within(count, max) <= count,
        max is None ==> within(count, max) == count,
        max is Some ==> within(count, max) <= max->0,
        max is Some && within(count, max) < count ==> within(count, max) == max->0,
{
}

/// An empty directory is pruned, behind what is pruned before it.
pub proof fn empty_directory_is_pruned(dir: DirTree, n: nat, path: Seq<u8>)
    requires
        0 < n <= dir.children@.len(),
        dir.children@[n - 1].is_dir,
        dir.children@[n - 1].children@.len() == 0,
    ensures
        prunable(dir, n, path).0 == prunable(dir, (n - 1) as nat, path).0.push(
            joined(path, dir.children@[n - 1].name@),
        ),
{
    reveal_with_fuel(prunable, 2);
    let before = prunable(dir, (n - 1) as nat, path).0;
    let at = joined(path, dir.children@[n - 1].name@);
    assert(before + Seq::<Seq<u8>>::empty().push(at) =~= before.push(at));
}

/// A file is never pruned, and keeps what it lies in.
pub proof fn file_keeps_its_directory(dir: DirTree, n: nat, path: Seq<u8>)
    requires
        0 < n <= dir.children@.len(),
        !dir.children@[n - 1].is_dir,
    ensures
        prunable(dir, n, path) == (prunable(dir, (n - 1) as nat, path).0, false),
{
}

} // verus!

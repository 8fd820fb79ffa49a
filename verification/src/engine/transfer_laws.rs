//! What a local transfer comes to, file by file.

use vstd::prelude::*;

use crate::engine::file_decision::backup_steps;
use crate::engine::progress::EventView;
use crate::engine::receiver_engine::Attempts;
use crate::engine::transfer::{
    arrival, arrival_counts, arrival_steps, finish_steps, first_same_file, local_action,
    local_counts, local_events, moved_counts, stage_at, total_len, Arrival, DataMethod,
    LocalActionView, LocalProbe, LocalView, Stage,
};
use crate::filelist::entry::EntryView;
use crate::filter::pattern::pattern_matches;
use crate::filter::rule::{first_match_decides, FilterAction, RuleView};
use crate::fs::metadata::FileMetadata;
use crate::fs::plan::{FsActionView, WriteMethod};
use crate::options::{DeleteMode, OptionsView};
use crate::path::{joined, same_path};

verus! {

/// An entry is a regular file.
pub open spec fn regular(e: EntryView) -> bool {
    e.mode & 0o170000 == 0o100000
}

/// A size lies within the limits.
pub open spec fn allowed_size(o: OptionsView, len: i64) -> bool {
    &&& o.limits.max_size is Some ==> len as u64 <= o.limits.max_size->0
    &&& o.limits.min_size is Some ==> len as u64 >= o.limits.min_size->0
}

/// What was found has another size or time than an entry.
pub open spec fn differs(e: EntryView, m: Option<FileMetadata>) -> bool {
    m is None || m->0.len != e.len || m->0.mtime != e.mtime
}

/// Nothing that was found in alternate directories is the file of an entry.
pub open spec fn all_differ(e: EntryView, metas: Seq<Option<FileMetadata>>) -> bool {
    forall|i: int| 0 <= i < metas.len() ==> differs(e, #[trigger] metas[i])
}

proof fn none_is_the_same(e: EntryView, metas: Seq<Option<FileMetadata>>, from: int)
    requires
        0 <= from <= metas.len(),
        all_differ(e, metas),
    ensures
        first_same_file(e, metas, from) == metas.len(),
    decreases metas.len() - from,
{
    if from < metas.len() {
        assert(differs(e, metas[from]));
        none_is_the_same(e, metas, from + 1);
    }
}

proof fn one_is_the_same(e: EntryView, metas: Seq<Option<FileMetadata>>, from: int, i: int)
    requires
        0 <= from <= i < metas.len(),
        !differs(e, metas[i]),
        forall|j: int| 0 <= j < i ==> differs(e, #[trigger] metas[j]),
    ensures
        first_same_file(e, metas, from) == i,
    decreases i - from,
{
    if from < i {
        assert(differs(e, metas[from]));
        one_is_the_same(e, metas, from + 1, i);
    }
}

/// A file that neither a size limit nor an alternate directory holds back.
pub open spec fn stands_alone(o: OptionsView, e: EntryView, p: LocalProbe) -> bool {
    &&& regular(e)
    &&& allowed_size(o, e.len)
    &&& all_differ(e, p.compare@)
    &&& all_differ(e, p.link@)
    &&& all_differ(e, p.copy@)
}

/// Such a file is skipped only where its destination has its size and its time;
/// or, where only older files are updated, is newer.
pub proof fn only_what_agrees_is_skipped(
    o: OptionsView,
    dest: Seq<u8>,
    e: EntryView,
    p: LocalProbe,
    tried: Attempts,
)
    requires
        stands_alone(o, e, p),
        !o.behavior.checksum_mode,
        local_action(o, dest, e, p, tried) is Skipped,
    ensures
        p.dest is Some,
        !o.behavior.update ==> p.dest->0.len == e.len && p.dest->0.mtime == e.mtime,
        p.dest->0.mtime < e.mtime ==> false,
        p.dest->0.mtime == e.mtime ==> p.dest->0.len == e.len,
{
    none_is_the_same(e, p.compare@, 0);
    none_is_the_same(e, p.link@, 0);
    none_is_the_same(e, p.copy@, 0);
}

/// What agrees in size and time is skipped, and where only older files are
/// updated so is whatever is newer, of any size.
pub proof fn what_agrees_or_is_newer_is_skipped(
    o: OptionsView,
    dest: Seq<u8>,
    e: EntryView,
    p: LocalProbe,
    tried: Attempts,
)
    requires
        stands_alone(o, e, p),
        !o.behavior.checksum_mode,
        p.dest is Some,
        (p.dest->0.len == e.len && p.dest->0.mtime == e.mtime) || (o.behavior.update
            && p.dest->0.mtime > e.mtime),
    ensures
        local_action(o, dest, e, p, tried) is Skipped,
{
    none_is_the_same(e, p.compare@, 0);
    none_is_the_same(e, p.link@, 0);
    none_is_the_same(e, p.copy@, 0);
}

/// Where checksums decide, sizes and times do not.
pub proof fn checksums_alone_decide(
    o: OptionsView,
    dest: Seq<u8>,
    e: EntryView,
    p: LocalProbe,
    tried: Attempts,
)
    requires
        stands_alone(o, e, p),
        o.behavior.checksum_mode,
    ensures
        local_action(o, dest, e, p, tried) is Skipped <==> p.same_checksum,
{
    none_is_the_same(e, p.compare@, 0);
    none_is_the_same(e, p.link@, 0);
    none_is_the_same(e, p.copy@, 0);
}

/// A file outside of the size limits is skipped, whatever else holds of it.
pub proof fn forbidden_size_is_skipped(
    o: OptionsView,
    dest: Seq<u8>,
    e: EntryView,
    p: LocalProbe,
    tried: Attempts,
)
    requires
        regular(e),
        !allowed_size(o, e.len),
    ensures
        local_action(o, dest, e, p, tried) is Skipped,
{
}

/// A file that a `--compare-dest` directory has is skipped; one that a
/// `--link-dest` directory has is linked from the first that has it, and one
/// that only a `--copy-dest` directory has is copied from there.
pub proof fn alternate_directories_serve_in_turn(
    o: OptionsView,
    dest: Seq<u8>,
    e: EntryView,
    p: LocalProbe,
    tried: Attempts,
    i: int,
)
    requires
        regular(e),
        allowed_size(o, e.len),
    ensures
        ({
            let a = local_action(o, dest, e, p, tried);
            let path = joined(dest, e.name);
            let held = |metas: Seq<Option<FileMetadata>>|
                0 <= i < metas.len() && !differs(e, metas[i]) && forall|j: int|
                    0 <= j < i ==> differs(e, #[trigger] metas[j]);
            &&& held(p.compare@) ==> a is Skipped
            &&& all_differ(e, p.compare@) && !o.output.dry_run ==> {
                &&& held(p.link@) && tried.link is None ==> a == (LocalActionView::TryLink {
                    from: joined(o.paths.link_dest[i], e.name),
                    to: path,
                })
                &&& held(p.link@) && tried.link == Some(true) ==> a is Linked
                &&& held(p.copy@) && (all_differ(e, p.link@) || tried.link == Some(false)) ==> {
                    &&& tried.copy is None ==> a == (LocalActionView::TryCopy {
                        from: joined(o.paths.copy_dest[i], e.name),
                        to: path,
                    })
                    &&& tried.copy == Some(true) ==> a is Linked
                }
            }
        }),
{
    if all_differ(e, p.compare@) {
        none_is_the_same(e, p.compare@, 0);
    }
    if all_differ(e, p.link@) {
        none_is_the_same(e, p.link@, 0);
    }
    if 0 <= i < p.compare@.len() && !differs(e, p.compare@[i]) && forall|j: int|
        0 <= j < i ==> differs(e, #[trigger] p.compare@[j]) {
        one_is_the_same(e, p.compare@, 0, i);
    }
    if 0 <= i < p.link@.len() && !differs(e, p.link@[i]) && forall|j: int|
        0 <= j < i ==> differs(e, #[trigger] p.link@[j]) {
        one_is_the_same(e, p.link@, 0, i);
    }
    if 0 <= i < p.copy@.len() && !differs(e, p.copy@[i]) && forall|j: int|
        0 <= j < i ==> differs(e, #[trigger] p.copy@[j]) {
        one_is_the_same(e, p.copy@, 0, i);
    }
}

/// How a file is updated that has to be: appended to where that is asked for and
/// there is something to append to, from where it ends; written whole where that
/// is asked for or nothing is there; else by a delta.
pub proof fn update_goes_by_what_is_there(
    o: OptionsView,
    dest: Seq<u8>,
    e: EntryView,
    p: LocalProbe,
    tried: Attempts,
)
    requires
        stands_alone(o, e, p),
        !o.output.dry_run,
        !(local_action(o, dest, e, p, tried) is Skipped),
    ensures
        ({
            let a = local_action(o, dest, e, p, tried);
            &&& o.behavior.append && 0 < p.basis_len < p.source_len ==> {
                &&& a is Append
                &&& a->Append_from == p.basis_len
                &&& a->Append_steps.len() == 1
                &&& a->Append_steps[0].required
                &&& a->Append_steps[0].action is Write
                &&& a->Append_steps[0].action->Write_path == joined(dest, e.name)
                &&& a->Append_steps[0].action->Write_method == WriteMethod::Append
            }
            &&& o.behavior.append && 0 < p.basis_len && p.source_len <= p.basis_len
                ==> a is NothingToAppend
            &&& p.basis_len == 0 ==> a == (LocalActionView::Transfer { method: DataMethod::Whole })
            &&& !o.behavior.append && o.behavior.whole_file ==> a == (LocalActionView::Transfer {
                method: DataMethod::Whole,
            })
            &&& !o.behavior.append && !o.behavior.whole_file && p.basis_len > 0 ==> a == (
            LocalActionView::Transfer {
                method: if o.output.compress {
                    DataMethod::CompressedDelta
                } else {
                    DataMethod::Delta
                },
            })
        }),
{
    none_is_the_same(e, p.compare@, 0);
    none_is_the_same(e, p.link@, 0);
    none_is_the_same(e, p.copy@, 0);
}

/// A directory is made at its place, with its own permissions where they are
/// preserved; a link is made to its target, where links are preserved; what is
/// neither a file, a directory nor such a link is left out.
pub proof fn other_entries_are_made(
    o: OptionsView,
    dest: Seq<u8>,
    e: EntryView,
    p: LocalProbe,
    tried: Attempts,
)
    requires
        !o.output.dry_run,
    ensures
        ({
            let a = local_action(o, dest, e, p, tried);
            let path = joined(dest, e.name);
            let t = e.mode & 0o170000;
            &&& t == 0o040000 ==> {
                &&& a is Directory
                &&& a->Directory_steps.len() == 1
                &&& a->Directory_steps[0].required
                &&& a->Directory_steps[0].action is MakeDir
                &&& a->Directory_steps[0].action->MakeDir_path == path
                &&& a->Directory_steps[0].action->MakeDir_mode == (if o.archive.preserve_perms {
                    e.mode & 0o7777
                } else {
                    0o755u32
                })
            }
            &&& t == 0o120000 && o.archive.preserve_links ==> {
                &&& a is Symlink
                &&& e.link_target.len() == 0 ==> a->Symlink_steps.len() == 0
                &&& e.link_target.len() > 0 ==> {
                    &&& a->Symlink_steps.len() == 1
                    &&& a->Symlink_steps[0].required
                    &&& a->Symlink_steps[0].action == (FsActionView::SymLink {
                        target: e.link_target,
                        path,
                    })
                }
            }
            &&& t == 0o120000 && !o.archive.preserve_links ==> a is Ignored
            &&& t != 0o040000 && t != 0o120000 && t != 0o100000 ==> a is Ignored
        }),
{
}

/// The data of a file ends up at its place. Before it is written, an old file is
/// moved out of the way where backups are asked for; a partial file is moved to
/// its place behind it; times and owner are those of the entry.
pub proof fn data_ends_up_in_its_place(
    o: OptionsView,
    dest: Seq<u8>,
    e: EntryView,
    exists: bool,
    len: usize,
    i: int,
)
    requires
        0 <= i < finish_steps(o, dest, e, exists, len).len(),
        !(o.behavior.backup && exists),
    ensures
        ({
            let steps = finish_steps(o, dest, e, exists, len);
            let path = joined(dest, e.name);
            match steps[i].action {
                FsActionView::Write { path: at, .. } => {
                    &&& steps[i].required
                    &&& o.paths.partial_dir is None ==> at == path && i == 0
                    &&& o.paths.partial_dir is Some ==> i == 1 && (same_path(at, path) || (i + 1
                        < steps.len() && steps[i + 1].action == (FsActionView::Rename {
                        from: at,
                        to: path,
                    })))
                },
                FsActionView::MakeDir { path: at, mode } => {
                    &&& i == 0
                    &&& o.paths.partial_dir == Some(at)
                    &&& mode == 0o755
                },
                FsActionView::Rename { from, to } => to == path && i == 2 && !same_path(from, to),
                FsActionView::SetTimes { path: at, mtime, nsec } => {
                    &&& o.archive.preserve_times
                    &&& at == path
                    &&& mtime == e.mtime
                    &&& nsec == e.mtime_nsec
                },
                FsActionView::SetOwner { path: at, uid, gid } => {
                    &&& o.archive.preserve_owner
                    &&& at == path
                    &&& uid == e.uid
                    &&& gid == e.gid
                    &&& !steps[i].required
                },
                _ => false,
            }
        }),
{
}

/// Where a file is backed up, that happens before anything else, and changes
/// nothing of what follows.
pub proof fn backup_comes_first(
    o: OptionsView,
    dest: Seq<u8>,
    e: EntryView,
    len: usize,
)
    requires
        o.behavior.backup,
    ensures
        finish_steps(o, dest, e, true, len) == backup_steps(
            joined(dest, e.name),
            o.texts.suffix,
            o.paths.backup_dir,
        ) + finish_steps(o, dest, e, false, len),
{
    assert(finish_steps(o, dest, e, true, len) =~= backup_steps(
        joined(dest, e.name),
        o.texts.suffix,
        o.paths.backup_dir,
    ) + finish_steps(o, dest, e, false, len));
}

/// Every required part of the work has its step: the data is written once, and
/// times and owner are set where they are preserved.
pub proof fn every_part_has_its_step(
    o: OptionsView,
    dest: Seq<u8>,
    e: EntryView,
    len: usize,
)
    requires
        o.paths.partial_dir is None,
    ensures
        ({
            let steps = finish_steps(o, dest, e, false, len);
            let path = joined(dest, e.name);
            &&& steps.len() > 0 && steps[0].action is Write
            &&& forall|i: int| 0 < i < steps.len() ==> !((#[trigger] steps[i]).action is Write)
            &&& o.archive.preserve_times ==> steps.len() > 1 && steps[1].action is SetTimes
            &&& o.archive.preserve_owner ==> steps.last().action is SetOwner
            &&& !o.archive.preserve_times && !o.archive.preserve_owner ==> steps.len() == 1
        }),
{
}

/// Each entry counts in one place: a directory, a link, a file that was skipped
/// or one that was transferred, with its size. What is left out counts nowhere,
/// and what is still to be moved does not count yet.
pub proof fn each_entry_counts_in_one_place(e: EntryView, p: LocalProbe, a: LocalActionView)
    requires
        a is Append ==> a->Append_from <= p.source_len,
    ensures
        ({
            let c = local_counts(e, p, a);
            &&& c.directories_created == (if a is Directory { 1u64 } else { 0 })
            &&& c.symlinks == (if a is Symlink { 1u64 } else { 0 })
            &&& c.files_skipped == (if a is Skipped || a is NothingToAppend { 1u64 } else { 0 })
            &&& c.files_transferred == (if a is Linked || a is DryRun || a is Append { 1u64 } else {
                0
            })
            &&& c.total_size == (if a is DryRun || a is Append { e.len as u64 } else { 0 })
            &&& c.literal_data == (if a is Append {
                (p.source_len - a->Append_from) as u64
            } else {
                0
            })
            &&& c.bytes_sent == c.literal_data
            &&& c.files_deleted == 0 && c.matched_data == 0 && c.bytes_received == 0
                && c.total_files == 0
        }),
{
}

/// Data that was moved counts as literal, for one file of its size.
pub proof fn moved_data_is_literal(e: EntryView, n: u64)
    ensures
        ({
            let c = moved_counts(e, n);
            &&& c.files_transferred == 1 && c.total_size == e.len as u64
            &&& c.literal_data == n && c.bytes_sent == n
            &&& c.files_skipped == 0 && c.files_deleted == 0 && c.directories_created == 0
            &&& c.symlinks == 0 && c.matched_data == 0 && c.bytes_received == 0 && c.total_files
                == 0
        }),
{
}

/// Every event about an entry names it and its index; what was skipped is told
/// as skipped, and what was done with how much of it was sent and how much was
/// there.
pub proof fn events_tell_of_the_entry(
    o: OptionsView,
    index: i32,
    e: EntryView,
    p: LocalProbe,
    a: LocalActionView,
    k: int,
)
    requires
        0 <= k < local_events(o, index, e, p, a).len(),
    ensures
        match local_events(o, index, e, p, a)[k] {
            EventView::FileStart { index: i, name, size } => i == index && name == e.name && size
                == e.len,
            EventView::FileItemized { index: i, name, .. } => i == index && name == e.name
                && o.output.itemize_changes,
            EventView::FileSkipped { index: i, name } => i == index && name == e.name && (
            a is Skipped || a is NothingToAppend),
            EventView::FileComplete { index: i, name, literal_bytes, matched_bytes } => {
                &&& i == index
                &&& name == e.name
                &&& a is Symlink ==> literal_bytes == 0 && matched_bytes == 0
                &&& a is Linked ==> literal_bytes == 0 && matched_bytes == e.len as u64
                &&& a is DryRun ==> literal_bytes == e.len as u64 && matched_bytes == 0
                &&& a is Append ==> matched_bytes == a->Append_from as u64
            },
            _ => false,
        },
{
}

/// Files are worked on in the order of the list, and deletions after the transfer
/// come last. Where files are deleted during the transfer, each directory is
/// cleaned when it was made.
pub proof fn work_goes_in_order(v: LocalView, i: int, p: LocalProbe, a: LocalActionView, n: usize)
    requires
        0 <= i,
        i + 1 < v.entries.len() <= i32::MAX,
        !(a is TryLink || a is TryCopy),
    ensures
        a is Transfer ==> v.decided(i, p, a).stage == Stage::Data(i as usize),
        a is Directory && v.o.output.delete == DeleteMode::During ==> v.decided(i, p, a).stage
            == Stage::DeleteIn(i as usize),
        !(a is Transfer) && !(a is Directory && v.o.output.delete == DeleteMode::During)
            ==> v.decided(i, p, a).stage == Stage::Item((i + 1) as usize),
        v.moved(i, n).stage == Stage::Item((i + 1) as usize),
{
}

/// Behind the last entry, what is to be deleted after the transfer is deleted;
/// then the transfer is over.
pub proof fn deletion_after_comes_last(v: LocalView, n: nat)
    requires
        v.entries.len() <= i32::MAX,
    ensures
        v.o.output.delete == DeleteMode::After ==> stage_at(
            v.entries.len() as int,
            v.entries.len(),
            v.o.output.delete,
        ) == Stage::DeleteAfter,
        v.o.output.delete != DeleteMode::After ==> stage_at(
            v.entries.len() as int,
            v.entries.len(),
            v.o.output.delete,
        ) == Stage::Finished,
        v.stage == Stage::DeleteAfter ==> v.cleaned(n).stage == Stage::Finished,
        v.stage == Stage::DeleteAfter && n <= u64::MAX ==> v.cleaned(n).stats.files_deleted == n,
{
}

/// An entry that arrives is dropped exactly where the filter rules leave it out,
/// a directory being matched as one.
pub proof fn filtered_arrivals_are_dropped(
    o: OptionsView,
    rules: Seq<RuleView>,
    e: EntryView,
    k: int,
)
    requires
        0 <= k < rules.len(),
        pattern_matches(rules[k].pattern, e.name, e.mode & 0o170000 == 0o040000),
        forall|j: int|
            0 <= j < k ==> !pattern_matches(
                #[trigger] rules[j].pattern,
                e.name,
                e.mode & 0o170000 == 0o040000,
            ),
    ensures
        arrival(o, rules, e) == Arrival::Filtered <==> rules[k].action == FilterAction::Exclude,
{
    first_match_decides(rules, k, e.name, e.mode & 0o170000 == 0o040000);
}

/// Without rules, an entry that arrives is taken for what it is, and a file is
/// skipped exactly where its size is not allowed.
pub proof fn arrivals_go_by_type(o: OptionsView, e: EntryView)
    ensures
        ({
            let t = e.mode & 0o170000;
            let a = arrival(o, Seq::empty(), e);
            &&& t == 0o040000 <==> a == Arrival::Directory
            &&& t == 0o120000 && o.archive.preserve_links <==> a == Arrival::Symlink
            &&& t == 0o100000 && allowed_size(o, e.len) <==> a == Arrival::File
            &&& t == 0o100000 && !allowed_size(o, e.len) <==> a == Arrival::Skipped
            &&& a != Arrival::Filtered
        }),
{
}

/// Each entry that arrives is counted, and in one place.
pub proof fn arrivals_count_once(e: EntryView, a: Arrival)
    ensures
        ({
            let c = arrival_counts(e, a);
            &&& c.total_files == (if a == Arrival::Filtered { 0u64 } else { 1 })
            &&& c.directories_created == (if a == Arrival::Directory { 1u64 } else { 0 })
            &&& c.symlinks == (if a == Arrival::Symlink { 1u64 } else { 0 })
            &&& c.files_skipped == (if a == Arrival::Skipped { 1u64 } else { 0 })
            &&& c.files_transferred == (if a == Arrival::File { 1u64 } else { 0 })
            &&& c.total_size == (if a == Arrival::File { e.len as u64 } else { 0 })
        }),
{
}

/// A file that arrived gets the entry's times and owner, where they are
/// preserved and the file is there.
pub proof fn arrived_file_gets_its_metadata(
    o: OptionsView,
    dest: Seq<u8>,
    e: EntryView,
    exists: bool,
    i: int,
)
    requires
        0 <= i < arrival_steps(o, dest, e, Arrival::File, exists).len(),
    ensures
        exists && !o.output.dry_run,
        ({
            let step = arrival_steps(o, dest, e, Arrival::File, exists)[i];
            &&& !step.required
            &&& match step.action {
                FsActionView::SetTimes { path, mtime, nsec } => {
                    &&& o.archive.preserve_times
                    &&& path == joined(dest, e.name)
                    &&& mtime == e.mtime
                    &&& nsec == e.mtime_nsec
                },
                FsActionView::SetOwner { path, uid, gid } => {
                    &&& o.archive.preserve_owner
                    &&& path == joined(dest, e.name)
                    &&& uid == e.uid
                    &&& gid == e.gid
                },
                _ => false,
            }
        }),
{
}

/// The sizes of lists add up.
pub proof fn sizes_add_up(a: Seq<EntryView>, b: Seq<EntryView>)
    ensures
        total_len(a + b) == total_len(a) + total_len(b),
        a.len() == 1 ==> total_len(a) == a[0].len,
    decreases b.len(),
{
    reveal_with_fuel(total_len, 2);
    if b.len() == 0 {
        assert(a + b =~= a);
    } else {
        assert((a + b).drop_last() =~= a + b.drop_last());
        sizes_add_up(a, b.drop_last());
    }
}

} // verus!

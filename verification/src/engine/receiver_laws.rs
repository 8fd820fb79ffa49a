//! What becomes of an entry on the receiving side.

use vstd::prelude::*;

use crate::engine::file_decision::{alt_dest, quick_skips, unsafe_target};
use crate::engine::receiver_engine::{
    backup_target, deferred_links, deferred_steps, dispatched, finish_steps, fuzzy_basis,
    links_created, mode_to_change, receive_steps, resolved_dirs, writer_steps, ActionView, Attempts,
    DestProbe, HandledKind,
};
use crate::engine::transfer_laws::{allowed_size, regular};
use crate::filelist::entry::EntryView;
use crate::fs::metadata::{DirEntryView, FileMetadata};
use crate::fs::plan::{FsActionView, StepView, WriteMethod};
use crate::options::OptionsView;
use crate::path::{joined, same_path};

verus! {

/// A directory is made at its place, unless a link to a directory is kept there;
/// with the changed mode, or with its own permissions where they are preserved.
pub proof fn directory_is_made(
    o: OptionsView,
    dest: Seq<u8>,
    e: EntryView,
    p: DestProbe,
    tried: Attempts,
    changed: Option<u32>,
)
    requires
        e.mode & 0o170000 == 0o040000,
        !o.output.dry_run,
    ensures
        ({
            let a = dispatched(o, dest, e, p, tried, changed);
            let keeps = o.tree.keep_dirlinks && p.dest is Some && p.dest->0.mode & 0o170000
                == 0o120000 && p.followed is Some && p.followed->0.mode & 0o170000 == 0o040000;
            &&& a is Handled && a->kind == HandledKind::Directory
            &&& keeps ==> a->Handled_steps.len() == 0
            &&& !keeps ==> {
                &&& a->Handled_steps.len() == 1
                &&& a->Handled_steps[0].required
                &&& a->Handled_steps[0].action == (FsActionView::MakeDir {
                    path: joined(dest, e.name),
                    mode: match changed {
                        Some(m) => m,
                        None => if o.archive.preserve_perms {
                            e.mode & 0o7777
                        } else {
                            0o755
                        },
                    },
                })
            }
        }),
{
}

/// A link is made to its target, where links are preserved, unless it is unsafe
/// and only safe links are wanted.
pub proof fn link_is_made_or_refused(
    o: OptionsView,
    dest: Seq<u8>,
    e: EntryView,
    p: DestProbe,
    tried: Attempts,
    changed: Option<u32>,
)
    requires
        e.mode & 0o170000 == 0o120000,
        !o.output.dry_run,
        e.link_target.len() > 0,
    ensures
        ({
            let a = dispatched(o, dest, e, p, tried, changed);
            &&& !o.archive.preserve_links ==> a is Skipped
            &&& o.tree.safe_links && unsafe_target(e.link_target) ==> a is Skipped
            &&& o.archive.preserve_links && (!o.tree.safe_links || !unsafe_target(e.link_target))
                ==> {
                &&& a is Handled && a->kind == HandledKind::Symlink
                &&& a->Handled_steps.len() == 1
                &&& a->Handled_steps[0].required
                &&& a->Handled_steps[0].action == (FsActionView::SymLink {
                    target: e.link_target,
                    path: joined(dest, e.name),
                })
            }
        }),
{
}

/// What is no file, directory or link is skipped. A file that is a link of
/// another entry waits for it, whatever else holds of it.
pub proof fn special_files_are_skipped_and_links_wait(
    o: OptionsView,
    dest: Seq<u8>,
    e: EntryView,
    p: DestProbe,
    tried: Attempts,
    changed: Option<u32>,
)
    ensures
        ({
            let t = e.mode & 0o170000;
            let a = dispatched(o, dest, e, p, tried, changed);
            &&& t != 0o040000 && t != 0o120000 && t != 0o100000 ==> a is Skipped
            &&& regular(e) && e.hlink_source is Some ==> a == (ActionView::DeferredHardlink {
                source_name: e.hlink_source->0,
            })
            &&& a is DeferredHardlink ==> regular(e) && e.hlink_source is Some
        }),
{
}

/// A file that nothing holds back is asked for, with what lies at its place as
/// the basis.
pub proof fn file_is_asked_for(
    o: OptionsView,
    dest: Seq<u8>,
    e: EntryView,
    p: DestProbe,
    tried: Attempts,
    changed: Option<u32>,
)
    requires
        regular(e),
        e.hlink_source is None,
        !o.output.dry_run,
        !o.behavior.existing || p.dest is Some,
        !o.behavior.ignore_existing || p.dest is None,
        allowed_size(o, e.len),
        o.paths.compare_dest.len() == 0,
        o.paths.link_dest.len() == 0,
        o.paths.copy_dest.len() == 0,
        o.behavior.checksum_mode || !quick_skips(o, e, p.dest),
    ensures
        dispatched(o, dest, e, p, tried, changed) == (ActionView::NeedsTransfer {
            basis: joined(dest, e.name),
        }),
{
}

/// Each of these holds a file back: that it is not there or is, that its size is
/// not allowed, that a `--compare-dest` directory has it, or, unless checksums
/// decide, that it is up to date.
pub proof fn file_is_held_back(
    o: OptionsView,
    dest: Seq<u8>,
    e: EntryView,
    p: DestProbe,
    tried: Attempts,
    changed: Option<u32>,
)
    requires
        regular(e),
        e.hlink_source is None,
        (o.behavior.existing && p.dest is None) || (o.behavior.ignore_existing && p.dest is Some)
            || !allowed_size(o, e.len) || (o.paths.compare_dest.len() > 0 && alt_dest(
            o,
            e,
            o.paths.compare_dest,
            p.compare@,
        ) is Some) || (!o.behavior.checksum_mode && quick_skips(o, e, p.dest)),
    ensures
        dispatched(o, dest, e, p, tried, changed) is Skipped,
{
}

/// Where checksums decide, size and time of the destination do not matter.
pub proof fn checksums_ask_for_every_file(
    o: OptionsView,
    dest: Seq<u8>,
    e: EntryView,
    p: DestProbe,
    m: FileMetadata,
    tried: Attempts,
    changed: Option<u32>,
)
    requires
        regular(e),
        o.behavior.checksum_mode,
        p.dest is Some,
    ensures
        dispatched(o, dest, e, p, tried, changed) == dispatched(
            o,
            dest,
            e,
            DestProbe { dest: Some(m), ..p },
            tried,
            changed,
        ),
{
}

/// A file that a `--link-dest` directory has replaces what is there by a link to
/// it; the directories lie below the destination, unless they start at the
/// root. Where that fails, or none has it, a `--copy-dest` directory serves.
pub proof fn alternates_serve_in_turn(
    o: OptionsView,
    dest: Seq<u8>,
    e: EntryView,
    p: DestProbe,
    tried: Attempts,
    changed: Option<u32>,
)
    requires
        regular(e),
        e.hlink_source is None,
        !o.output.dry_run,
        !o.behavior.existing,
        !o.behavior.ignore_existing,
        allowed_size(o, e.len),
        o.paths.compare_dest.len() == 0,
        o.behavior.checksum_mode || !quick_skips(o, e, p.dest),
    ensures
        ({
            let a = dispatched(o, dest, e, p, tried, changed);
            let path = joined(dest, e.name);
            let link = alt_dest(o, e, resolved_dirs(dest, o.paths.link_dest), p.link@);
            let copy = alt_dest(o, e, o.paths.copy_dest, p.copy@);
            let links = o.paths.link_dest.len() > 0 && link is Some;
            let copies = o.paths.copy_dest.len() > 0 && copy is Some;
            &&& links && tried.link is None ==> {
                &&& a is TryLink
                &&& a->TryLink_steps.len() == 2
                &&& a->TryLink_steps[0] == (StepView {
                    action: FsActionView::RemoveFile { path },
                    required: false,
                })
                &&& a->TryLink_steps[1] == (StepView {
                    action: FsActionView::HardLink { from: link->0, to: path },
                    required: true,
                })
            }
            &&& links && tried.link == Some(true) ==> a is Handled && a->kind
                == HandledKind::LinkDest && a->Handled_steps.len() == 0
            &&& (!links || tried.link == Some(false)) && copies && tried.copy is None ==> {
                &&& a is TryCopy
                &&& a->TryCopy_steps.len() == 1
                &&& a->TryCopy_steps[0] == (StepView {
                    action: FsActionView::CopyFile { from: copy->0, to: path },
                    required: true,
                })
            }
            &&& (!links || tried.link == Some(false)) && copies && tried.copy == Some(true)
                ==> a is Handled && a->kind == HandledKind::CopyDest && a->Handled_steps.len() == 0
            &&& (!links || tried.link == Some(false)) && (!copies || tried.copy == Some(false))
                ==> a == (ActionView::NeedsTransfer { basis: path })
        }),
{
}

/// A directory's permissions are changed from those that it would get, a file's
/// from its own.
pub proof fn modes_are_changed_from_their_own(o: OptionsView, e: EntryView)
    ensures
        e.mode & 0o170000 != 0o040000 || o.archive.preserve_perms ==> mode_to_change(o, e) == e.mode
            & 0o7777,
        e.mode & 0o170000 == 0o040000 && !o.archive.preserve_perms ==> mode_to_change(o, e)
            == 0o755,
{
}

/// The data of a file that was received ends up at its place, and each step does
/// what belongs to it: the source is removed only where that is asked for.
pub proof fn received_data_ends_up_in_its_place(
    o: OptionsView,
    dest: Seq<u8>,
    e: EntryView,
    exists: bool,
    len: usize,
    source: Option<Seq<u8>>,
    changed: Option<u32>,
    i: int,
)
    requires
        0 <= i < receive_steps(o, dest, e, exists, len, source, changed).len(),
        !(o.behavior.backup && exists),
    ensures
        ({
            let steps = receive_steps(o, dest, e, exists, len, source, changed);
            let path = joined(dest, e.name);
            match steps[i].action {
                FsActionView::Write { path: at, .. } => {
                    &&& steps[i].required
                    &&& o.paths.partial_dir is None ==> at == path && i == 0
                    &&& o.paths.partial_dir is Some ==> i == 1 && (same_path(at, path) || (i + 1
                        < steps.len() && steps[i + 1].action == (FsActionView::Rename {
                        from: at,
                        to: path,
                    })))
                },
                FsActionView::MakeDir { path: at, mode } => i == 0 && o.paths.partial_dir == Some(
                    at,
                ) && mode == 0o755,
                FsActionView::Rename { from, to } => i == 2 && to == path && !same_path(from, to),
                FsActionView::SetTimes { path: at, mtime, nsec } => o.archive.preserve_times && at
                    == path && mtime == e.mtime && nsec == e.mtime_nsec,
                FsActionView::SetOwner { path: at, uid, gid } => {
                    &&& at == path
                    &&& o.limits.chown_uid is None ==> uid == e.uid
                    &&& o.limits.chown_gid is None ==> gid == e.gid
                },
                FsActionView::RemoveFile { path: at } => {
                    &&& o.tree.remove_source_files
                    &&& !o.output.dry_run
                    &&& source == Some(at)
                    &&& i == steps.len() - 1
                    &&& !steps[i].required
                },
                _ => false,
            }
        }),
{
}

/// A source is removed behind everything else, where that is asked for and it is
/// no dry run.
pub proof fn source_is_removed_last(
    o: OptionsView,
    dest: Seq<u8>,
    e: EntryView,
    exists: bool,
    len: usize,
    source: Seq<u8>,
    changed: Option<u32>,
)
    ensures
        ({
            let with = receive_steps(o, dest, e, exists, len, Some(source), changed);
            let without = receive_steps(o, dest, e, exists, len, None, changed);
            if o.tree.remove_source_files && !o.output.dry_run {
                with == without.push(
                    StepView {
                        action: FsActionView::RemoveFile { path: source },
                        required: false,
                    },
                )
            } else {
                with == without
            }
        }),
{
    let with = receive_steps(o, dest, e, exists, len, Some(source), changed);
    let without = receive_steps(o, dest, e, exists, len, None, changed);
    if o.tree.remove_source_files && !o.output.dry_run {
        assert(with =~= without.push(
            StepView { action: FsActionView::RemoveFile { path: source }, required: false },
        ));
    } else {
        assert(with =~= without);
    }
}

/// A backup directory lies below the destination, unless it starts at the root.
pub proof fn backup_directory_lies_below(o: OptionsView, dest: Seq<u8>)
    requires
        dest.len() > 0,
        dest.last() != 0x2F,
    ensures
        o.paths.backup_dir is None ==> backup_target(o, dest) is None,
        o.paths.backup_dir is Some ==> {
            let d = o.paths.backup_dir->0;
            &&& d.len() > 0 && d[0] == 0x2F ==> backup_target(o, dest) == Some(d)
            &&& d.len() == 0 || d[0] != 0x2F ==> backup_target(o, dest) == Some(
                dest + seq![0x2Fu8] + d,
            )
        },
{
}

/// How a file that streams in is opened: behind what is there where data is
/// appended, over it where it is updated in place, in the partial directory where
/// there is one, else at its place.
pub proof fn writer_is_opened_where_it_belongs(
    o: OptionsView,
    dest: Seq<u8>,
    e: EntryView,
    exists: bool,
    parent_exists: bool,
    changed: Option<u32>,
)
    ensures
        ({
            let steps = writer_steps(o, dest, e, exists, parent_exists, changed);
            let path = joined(dest, e.name);
            let append = o.behavior.append || o.behavior.append_verify;
            let w = steps.last().action;
            &&& steps.len() > 0 && w is Write && steps.last().required
            &&& append ==> w->Write_method == WriteMethod::Append && w->Write_path == path
                && w->Write_mode is None
            &&& !append && o.behavior.inplace ==> w->Write_method == WriteMethod::InPlace
                && w->Write_path == path
            &&& !append && !o.behavior.inplace ==> w->Write_method == WriteMethod::Streaming
            &&& !append && !o.behavior.inplace && o.paths.partial_dir is None ==> w->Write_path
                == path
            &&& !append && !o.behavior.inplace && o.paths.partial_dir is Some ==> steps.len() > 1
                && steps[steps.len() - 2].action == (FsActionView::MakeDir {
                path: o.paths.partial_dir->0,
                mode: 0o755,
            })
        }),
{
}

/// What streamed in without a partial directory is in its place already: only
/// metadata is set, and the source removed where that is asked for.
pub proof fn finishing_moves_only_partial_files(
    o: OptionsView,
    dest: Seq<u8>,
    e: EntryView,
    source: Option<Seq<u8>>,
    i: int,
)
    requires
        0 <= i < finish_steps(o, dest, e, source).len(),
    ensures
        ({
            let steps = finish_steps(o, dest, e, source);
            let path = joined(dest, e.name);
            match steps[i].action {
                FsActionView::Rename { from, to } => i == 0 && to == path
                    && o.paths.partial_dir is Some && !same_path(from, to),
                FsActionView::SetTimes { path: at, mtime, nsec } => at == path && mtime == e.mtime
                    && nsec == e.mtime_nsec && o.archive.preserve_times,
                FsActionView::SetOwner { path: at, uid, gid } => {
                    &&& at == path
                    &&& o.limits.chown_uid is None ==> uid == e.uid
                    &&& o.limits.chown_gid is None ==> gid == e.gid
                },
                FsActionView::RemoveFile { path: at } => source == Some(at)
                    && o.tree.remove_source_files && !o.output.dry_run,
                _ => false,
            }
        }),
{
}

/// Each deferred entry whose source is in the list becomes a link to that source,
/// in order; the others become none.
pub proof fn deferred_entries_become_links(
    dest: Seq<u8>,
    deferred: Seq<(Seq<u8>, Seq<u8>)>,
    dup: Seq<u8>,
    source: Seq<u8>,
    names: Seq<Seq<u8>>,
)
    ensures
        deferred_links(dest, deferred.push((dup, source)), names) == (if names.contains(source) {
            deferred_links(dest, deferred, names).push((joined(dest, source), joined(dest, dup)))
        } else {
            deferred_links(dest, deferred, names)
        }),
        deferred_links(dest, Seq::empty(), names).len() == 0,
{
    assert(deferred.push((dup, source)).drop_last() =~= deferred);
}

/// A deferred link replaces what has its name, which need not be there; in a dry
/// run nothing is done.
pub proof fn deferred_link_replaces(o: OptionsView, from: Seq<u8>, to: Seq<u8>)
    ensures
        o.output.dry_run ==> deferred_steps(o, from, to).len() == 0,
        !o.output.dry_run ==> deferred_steps(o, from, to) == seq![
            StepView { action: FsActionView::RemoveFile { path: to }, required: false },
            StepView { action: FsActionView::HardLink { from, to }, required: true },
        ],
{
    assert(!o.output.dry_run ==> deferred_steps(o, from, to) =~= seq![
        StepView { action: FsActionView::RemoveFile { path: to }, required: false },
        StepView { action: FsActionView::HardLink { from, to }, required: true },
    ]);
}

/// Every link whose steps succeeded is counted, and no other.
pub proof fn made_links_are_counted(made: Seq<bool>, m: bool)
    ensures
        links_created(Seq::empty()) == 0,
        links_created(made.push(m)) == links_created(made) + (if m {
            1nat
        } else {
            0
        }),
{
    reveal(Seq::filter);
    assert(made.push(m).drop_last() =~= made);
}

/// Without `--fuzzy` no similar file is looked for.
pub proof fn similar_files_only_on_request(
    o: OptionsView,
    dest: Seq<u8>,
    e: EntryView,
    l: Seq<DirEntryView>,
    readable: Seq<bool>,
)
    requires
        !o.behavior.fuzzy,
    ensures
        fuzzy_basis(o, dest, e, l, readable) is None,
{
}

} // verus!

//! What the decisions about single files come to.
//!
//! Each law says of a decision which facts settle it, and which do not matter.

use vstd::prelude::*;

use crate::engine::file_decision::{
    alt_dest, existence_skips, file_mode, first_same, itemized, metadata_steps, quick_skips,
    resolved, size_skips, write_method,
};
use crate::filelist::entry::EntryView;
use crate::fs::metadata::FileMetadata;
use crate::fs::plan::{FsActionView, WriteMethod};
use crate::options::{Limits, OptionsView};
use crate::path::joined;

verus! {

// ---------------------------------------------------------------------------
// Skipping
// ---------------------------------------------------------------------------

/// Where only older files are updated, a newer file at the destination is left
/// alone, whatever the sizes are.
pub proof fn newer_file_is_left_alone(o: OptionsView, e: EntryView, m: FileMetadata)
    requires
        o.behavior.update,
        !o.behavior.ignore_times,
        m.mtime > e.mtime,
    ensures
        quick_skips(o, e, Some(m)),
{
}

/// But for that, files of different sizes are never taken for the same.
pub proof fn other_size_is_transferred(o: OptionsView, e: EntryView, m: FileMetadata)
    requires
        m.len != e.len,
        !o.behavior.update || m.mtime <= e.mtime,
    ensures
        !quick_skips(o, e, Some(m)),
{
}

/// Files of one size are taken for the same exactly where their times lie no
/// further apart than the window, in either direction.
pub proof fn times_decide_within_the_window(o: OptionsView, e: EntryView, m: FileMetadata)
    requires
        !o.behavior.ignore_times,
        !o.behavior.size_only,
        !o.behavior.update || m.mtime <= e.mtime,
        m.len == e.len,
    ensures
        m.mtime == e.mtime ==> quick_skips(o, e, Some(m)),
        m.mtime > e.mtime ==> (quick_skips(o, e, Some(m)) <==> o.limits.modify_window >= m.mtime
            - e.mtime),
        m.mtime < e.mtime ==> (quick_skips(o, e, Some(m)) <==> o.limits.modify_window >= e.mtime
            - m.mtime),
{
}

/// Where sizes alone count, files of one size are the same whatever their times.
pub proof fn sizes_alone_decide(o: OptionsView, e: EntryView, m: FileMetadata)
    requires
        !o.behavior.ignore_times,
        o.behavior.size_only,
        m.len == e.len,
    ensures
        quick_skips(o, e, Some(m)),
{
}

/// What is missing is never up to date, and where times are ignored nothing is.
pub proof fn missing_or_ignored_is_transferred(
    o: OptionsView,
    e: EntryView,
    dest: Option<FileMetadata>,
)
    requires
        dest is None || o.behavior.ignore_times,
    ensures
        !quick_skips(o, e, dest),
{
}

/// Only size and time of the two files matter.
pub proof fn only_size_and_time_matter(
    o: OptionsView,
    a: EntryView,
    b: EntryView,
    m: FileMetadata,
    n: FileMetadata,
)
    requires
        a.len == b.len && a.mtime == b.mtime,
        m.len == n.len && m.mtime == n.mtime,
    ensures
        quick_skips(o, a, Some(m)) == quick_skips(o, b, Some(n)),
{
}

/// `--existing` holds back what is not there, `--ignore-existing` what is, and
/// neither of them anything else.
pub proof fn existence_decides(o: OptionsView)
    ensures
        o.behavior.existing ==> existence_skips(o, false),
        o.behavior.ignore_existing ==> existence_skips(o, true),
        existence_skips(o, false) ==> o.behavior.existing,
        existence_skips(o, true) ==> o.behavior.ignore_existing,
{
}

/// The limits themselves are allowed sizes; what lies outside of them is not.
pub proof fn limits_are_allowed(o: OptionsView, len: i64)
    requires
        0 <= len,
    ensures
        o.limits.max_size is Some && len > o.limits.max_size->0 ==> size_skips(o, len),
        o.limits.min_size is Some && len < o.limits.min_size->0 ==> size_skips(o, len),
        (o.limits.max_size is None || len <= o.limits.max_size->0) && (o.limits.min_size is None
            || len >= o.limits.min_size->0) ==> !size_skips(o, len),
{
    assert(len as u64 == len) by (bit_vector)
        requires
            0 <= len,
    ;
}

/// A wider range of sizes holds back no more files.
pub proof fn wider_limits_hold_back_less(o: OptionsView, max: u64, len: i64)
    requires
        o.limits.max_size is Some,
        o.limits.max_size->0 <= max,
        size_skips(
            (OptionsView { limits: Limits { max_size: Some(max), ..o.limits }, ..o }),
            len,
        ),
    ensures
        size_skips(o, len),
{
}

// ---------------------------------------------------------------------------
// Alternate directories
// ---------------------------------------------------------------------------

/// The file of an alternate directory is taken where it has the size of the
/// entry and a time within the window, and no earlier directory has one.
pub proof fn first_same_file_is_taken(
    o: OptionsView,
    e: EntryView,
    dirs: Seq<Seq<u8>>,
    metas: Seq<Option<FileMetadata>>,
    i: int,
)
    requires
        0 <= i < metas.len(),
        metas[i] is Some,
        metas[i]->0.len == e.len,
        metas[i]->0.mtime - e.mtime <= o.limits.modify_window,
        e.mtime - metas[i]->0.mtime <= o.limits.modify_window,
        forall|j: int|
            0 <= j < i ==> (#[trigger] metas[j] is None || metas[j]->0.len != e.len
                || metas[j]->0.mtime - e.mtime > o.limits.modify_window || e.mtime
                - metas[j]->0.mtime > o.limits.modify_window),
    ensures
        alt_dest(o, e, dirs, metas) == Some(joined(dirs[i], e.name)),
{
    first_same_at(o, e, metas, 0, i);
}

/// Where no alternate directory has such a file, none is taken.
pub proof fn other_files_are_not_taken(
    o: OptionsView,
    e: EntryView,
    dirs: Seq<Seq<u8>>,
    metas: Seq<Option<FileMetadata>>,
)
    requires
        forall|j: int|
            0 <= j < metas.len() ==> (#[trigger] metas[j] is None || metas[j]->0.len != e.len
                || metas[j]->0.mtime - e.mtime > o.limits.modify_window || e.mtime
                - metas[j]->0.mtime > o.limits.modify_window),
    ensures
        alt_dest(o, e, dirs, metas) is None,
{
    first_same_none(o, e, metas, 0);
}

proof fn first_same_at(
    o: OptionsView,
    e: EntryView,
    metas: Seq<Option<FileMetadata>>,
    from: int,
    i: int,
)
    requires
        0 <= from <= i < metas.len(),
        crate::engine::file_decision::same_as(o, e, metas[i]),
        forall|j: int|
            from <= j < i ==> !crate::engine::file_decision::same_as(o, e, #[trigger] metas[j]),
    ensures
        first_same(o, e, metas, from) == i,
    decreases i - from,
{
    if from < i {
        assert(!crate::engine::file_decision::same_as(o, e, metas[from]));
        first_same_at(o, e, metas, from + 1, i);
    }
}

proof fn first_same_none(o: OptionsView, e: EntryView, metas: Seq<Option<FileMetadata>>, from: int)
    requires
        0 <= from <= metas.len(),
        forall|j: int|
            0 <= j < metas.len() ==> !crate::engine::file_decision::same_as(
                o,
                e,
                #[trigger] metas[j],
            ),
    ensures
        first_same(o, e, metas, from) == metas.len(),
    decreases metas.len() - from,
{
    if from < metas.len() {
        assert(!crate::engine::file_decision::same_as(o, e, metas[from]));
        first_same_none(o, e, metas, from + 1);
    }
}

/// A directory that starts at the root stands for itself; another one lies
/// below the destination, behind one slash.
pub proof fn relative_directories_lie_below(dest: Seq<u8>, d: Seq<u8>)
    requires
        dest.len() > 0,
        dest.last() != 0x2F,
    ensures
        d.len() > 0 && d[0] == 0x2F ==> resolved(dest, d) == d,
        d.len() == 0 || d[0] != 0x2F ==> resolved(dest, d) == dest + seq![0x2Fu8] + d,
{
}

// ---------------------------------------------------------------------------
// Metadata
// ---------------------------------------------------------------------------

/// The steps that set metadata set the times of the entry and the owner and
/// group that were asked for, else those of the entry; all of them at the
/// file, and none of them is required.
pub proof fn metadata_is_that_of_the_entry(path: Seq<u8>, e: EntryView, o: OptionsView, i: int)
    requires
        0 <= i < metadata_steps(path, e, o).len(),
    ensures
        ({
            let step = metadata_steps(path, e, o)[i];
            &&& !step.required
            &&& match step.action {
                FsActionView::SetTimes { path: p, mtime, nsec } => {
                    &&& o.archive.preserve_times
                    &&& p == path
                    &&& mtime == e.mtime
                    &&& nsec == e.mtime_nsec
                },
                FsActionView::SetOwner { path: p, uid, gid } => {
                    &&& p == path
                    &&& o.limits.chown_uid is None ==> uid == e.uid
                    &&& o.limits.chown_uid is Some ==> uid == o.limits.chown_uid->0
                    &&& o.limits.chown_gid is None ==> gid == e.gid
                    &&& o.limits.chown_gid is Some ==> gid == o.limits.chown_gid->0
                    &&& o.archive.preserve_owner || o.limits.chown_uid is Some
                        || o.limits.chown_gid is Some
                },
                _ => false,
            }
        }),
{
}

/// What was asked for is set: the times first, and the owner where it is
/// preserved or changed.
pub proof fn asked_metadata_is_set(path: Seq<u8>, e: EntryView, o: OptionsView)
    ensures
        ({
            let steps = metadata_steps(path, e, o);
            let owner = o.archive.preserve_owner || o.limits.chown_uid is Some
                || o.limits.chown_gid is Some;
            &&& o.archive.preserve_times ==> steps.len() > 0 && steps[0].action is SetTimes
            &&& owner ==> steps.len() > 0 && steps.last().action is SetOwner
            &&& !o.archive.preserve_times && !owner ==> steps.len() == 0
            &&& steps.len() == 2 ==> o.archive.preserve_times && owner
            &&& steps.len() <= 2
        }),
{
}

/// The group that is set does not depend on the owner, nor the owner on the
/// group.
pub proof fn owner_and_group_are_apart(
    path: Seq<u8>,
    e: EntryView,
    uid: u32,
    gid: u32,
    o: OptionsView,
    i: int,
)
    requires
        0 <= i < metadata_steps(path, e, o).len(),
        metadata_steps(path, e, o)[i].action is SetOwner,
    ensures
        ({
            let a = metadata_steps(path, e, o)[i].action;
            let b = metadata_steps(path, EntryView { uid, ..e }, o)[i].action;
            let c = metadata_steps(path, EntryView { gid, ..e }, o)[i].action;
            &&& b is SetOwner && b->SetOwner_gid == a->SetOwner_gid
            &&& c is SetOwner && c->SetOwner_uid == a->SetOwner_uid
        }),
{
}

/// A file gets a mode exactly where permissions are preserved. It is the changed
/// one, where there is one; else it has the entry's permission bits, and no
/// others.
pub proof fn mode_has_the_permission_bits(o: OptionsView, e: EntryView, changed: Option<u32>)
    ensures
        file_mode(o, e, changed) is Some <==> o.archive.preserve_perms,
        o.archive.preserve_perms && changed is Some ==> file_mode(o, e, changed) == changed,
        o.archive.preserve_perms && changed is None ==> {
            let m = file_mode(o, e, changed)->0;
            &&& m < 0x1000
            &&& (e.mode - m) % 0x1000 == 0
        },
{
    let x = e.mode;
    assert((x & 0o7777) < 0x1000 && (x & 0o7777) == x % 0x1000) by (bit_vector);
}

/// Sparse files are written sparsely, others in place where that is asked for;
/// else data of at least 64 MiB is streamed, and less is written at once.
pub proof fn method_goes_by_options_and_length(o: OptionsView, len: usize)
    requires
        len <= i64::MAX,
    ensures
        o.behavior.sparse ==> write_method(o, len) == WriteMethod::Sparse,
        !o.behavior.sparse && o.behavior.inplace ==> write_method(o, len) == WriteMethod::InPlace,
        !o.behavior.sparse && !o.behavior.inplace && len >= 64 * 1024 * 1024 ==> write_method(
            o,
            len,
        ) == WriteMethod::Streaming,
        !o.behavior.sparse && !o.behavior.inplace && len < 64 * 1024 * 1024 ==> write_method(o, len)
            == WriteMethod::Whole,
{
}

/// A new file is itemized as created, with everything changed. Of one that is
/// there, each difference is itemized by itself, permissions, owner and group
/// only where they are preserved.
pub proof fn differences_are_itemized(o: OptionsView, e: EntryView, dest: Option<FileMetadata>)
    ensures
        ({
            let r = itemized(o, e, dest);
            &&& !r.checksum_changed
            &&& dest is None <==> r.update_type == 'c'
            &&& dest is None ==> r.size_changed && r.time_changed && r.perms_changed
                && r.owner_changed && r.group_changed
            &&& dest is Some ==> {
                let m = dest->0;
                &&& r.size_changed <==> m.len != e.len
                &&& r.time_changed <==> m.mtime != e.mtime
                &&& r.perms_changed ==> o.archive.preserve_perms
                &&& o.archive.preserve_perms ==> (r.perms_changed <==> m.mode % 0x1000 != e.mode
                    % 0x1000)
                &&& r.owner_changed <==> o.archive.preserve_owner && m.uid != e.uid
                &&& r.group_changed ==> m.gid != e.gid
                &&& m.gid != e.gid ==> (r.group_changed <==> o.archive.preserve_group
                    || o.archive.preserve_owner)
                &&& r.update_type == '>' <==> (r.size_changed || r.time_changed || r.perms_changed
                    || r.owner_changed || r.group_changed)
                &&& r.update_type == '>' || r.update_type == '.'
            }
        }),
{
    if dest is Some {
        let x = e.mode;
        let y = dest->0.mode;
        assert(x & 0o7777 == x % 0x1000) by (bit_vector);
        assert(y & 0o7777 == y % 0x1000) by (bit_vector);
    }
}

/// The letter of an entry tells directories, links and devices from other files.
pub proof fn itemized_letter_is_the_type(o: OptionsView, e: EntryView, dest: Option<FileMetadata>)
    ensures
        ({
            let t = e.mode / 0x1000 % 16;
            let c = itemized(o, e, dest).file_type;
            &&& c == 'd' <==> t == 4
            &&& c == 'L' <==> t == 10
            &&& c == 'D' <==> t == 6 || t == 2
            &&& c == 'f' <==> t != 4 && t != 10 && t != 6 && t != 2
        }),
{
    let m = e.mode;
    assert((m & 0o170000) == (m / 0x1000 % 16) * 0x1000) by (bit_vector);
}

} // verus!

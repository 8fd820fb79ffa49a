//! What options mean.

use vstd::prelude::*;

use crate::options::{clamped_u32, clamped_usize, DeleteMode, DirectoryMode, OptionsView, Verbosity};

verus! {

/// A number outside its limits becomes the nearest inside.
pub proof fn numbers_are_kept_inside(v: u32, lo: u32, hi: u32, w: usize, a: usize, b: usize)
    requires
        lo <= hi,
        a <= b,
    ensures
        lo <= clamped_u32(v, lo, hi) <= hi,
        lo <= v <= hi ==> clamped_u32(v, lo, hi) == v,
        v < lo ==> clamped_u32(v, lo, hi) == lo,
        v > hi ==> clamped_u32(v, lo, hi) == hi,
        a <= clamped_usize(w, a, b) <= b,
        a <= w <= b ==> clamped_usize(w, a, b) == w,
        w < a ==> clamped_usize(w, a, b) == a,
        w > b ==> clamped_usize(w, a, b) == b,
{
}

/// Directories are walked where the transfer is recursive, named where only they
/// were asked for, and skipped else.
pub proof fn recursion_comes_before_listing(o: OptionsView)
    ensures
        o.archive.recursive ==> o.directory_mode() == DirectoryMode::Recurse,
        !o.archive.recursive && o.tree.dirs ==> o.directory_mode() == DirectoryMode::List,
        !o.archive.recursive && !o.tree.dirs ==> o.directory_mode() == DirectoryMode::Skip,
{
}

/// A transfer is one of an archive where everything that an archive keeps is kept.
pub proof fn archive_keeps_everything(o: OptionsView)
    ensures
        o.is_archive() <==> o.archive.recursive && o.archive.preserve_links
            && o.archive.preserve_perms && o.archive.preserve_times && o.archive.preserve_group
            && o.archive.preserve_owner && o.archive.preserve_devices
            && o.archive.preserve_specials,
        !OptionsView::initial().is_archive(),
{
}

/// Nothing is asked for at first: nothing is kept, deleted, held back or changed,
/// and one file is moved at a time.
pub proof fn nothing_is_asked_for_at_first()
    ensures
        ({
            let o = OptionsView::initial();
            &&& o.directory_mode() == DirectoryMode::Skip
            &&& !o.behavior.checksum_mode && !o.behavior.update && !o.behavior.ignore_times
            &&& !o.behavior.size_only && !o.behavior.backup && !o.behavior.inplace
            &&& !o.output.dry_run && !o.output.list_only && o.output.delete == DeleteMode::Off
            &&& o.output.verbosity == Verbosity::Normal
            &&& o.limits.compress_level == 6 && o.limits.concurrent == 1
            &&& o.limits.max_size is None && o.limits.min_size is None
            &&& o.limits.chown_uid is None && o.limits.chown_gid is None
            &&& o.limits.modify_window == 0 && o.limits.max_delete is None
            &&& o.texts.suffix == seq!['~'] && o.texts.exclude.len() == 0
            &&& o.paths.source.len() == 0 && o.paths.dest is None
        }),
{
}

} // verus!

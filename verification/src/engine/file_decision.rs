//! Per-file decision logic for transfers.
//!
//! Whether a file is skipped, how it is written, and what metadata is set. What
//! the file system holds is given as metadata that was read before.

use vstd::prelude::*;
use vstd::utf8::encode_utf8;

use crate::engine::progress::ItemizedChanges;
use crate::filelist::entry::{
    copy_bytes, file_name_of, file_type, path_file_name, EntryView, FileEntry, S_IFBLK, S_IFCHR,
    S_IFDIR, WIRE_S_IFLNK,
};
use crate::fs::metadata::{FileMetadata, STREAMING_THRESHOLD};
use crate::fs::plan::{
    may, must, push_step, step_views, FsAction, FsActionView, Step, StepView, WriteMethod,
};
use crate::options::{path_views, OptionsView, TransferOptions};
use crate::path::{component_end, component_end_bound, is_absolute, join_path, joined, path_is_absolute, path_with_name, renamed};
use crate::text::{from_chars, lossy_string, lossy_text, push_text};

verus! {

// ---------------------------------------------------------------------------
// Skipping
// ---------------------------------------------------------------------------

/// A file is skipped by its mere existence or absence.
pub open spec fn existence_skips(o: OptionsView, exists: bool) -> bool {
    (o.behavior.existing && !exists) || (o.behavior.ignore_existing && exists)
}

/// Two times are as close as the window allows.
pub open spec fn times_agree(a: i64, b: i64, window: u32) -> bool {
    -window <= a - b <= window
}

/// A destination is up to date by its size and time: it is newer where only
/// older files are updated, or it has the same size and, unless sizes alone
/// count, the same time.
pub open spec fn quick_skips(o: OptionsView, e: EntryView, dest: Option<FileMetadata>) -> bool {
    match dest {
        None => false,
        Some(m) => !o.behavior.ignore_times && ((o.behavior.update && m.mtime > e.mtime) || (m.len
            == e.len && (o.behavior.size_only || times_agree(
            m.mtime,
            e.mtime,
            o.limits.modify_window,
        )))),
    }
}

/// The file in an alternate directory is the same by size and time.
pub open spec fn same_as(o: OptionsView, e: EntryView, m: Option<FileMetadata>) -> bool {
    match m {
        None => false,
        Some(m) => m.len == e.len && times_agree(m.mtime, e.mtime, o.limits.modify_window),
    }
}

/// The first alternate directory that holds the same file; their number where
/// none does.
pub open spec fn first_same(
    o: OptionsView,
    e: EntryView,
    metas: Seq<Option<FileMetadata>>,
    from: int,
) -> int
    decreases metas.len() - from,
{
    if from >= metas.len() || same_as(o, e, metas[from]) {
        from
    } else {
        first_same(o, e, metas, from + 1)
    }
}

/// The path of the same file in an alternate directory.
pub open spec fn alt_dest(
    o: OptionsView,
    e: EntryView,
    dirs: Seq<Seq<u8>>,
    metas: Seq<Option<FileMetadata>>,
) -> Option<Seq<u8>> {
    let i = first_same(o, e, metas, 0);
    if i < metas.len() {
        Some(joined(dirs[i], e.name))
    } else {
        None
    }
}

/// A file is too large or too small.
pub open spec fn size_skips(o: OptionsView, len: i64) -> bool {
    (match o.limits.max_size {
        Some(max) => len as u64 > max,
        None => false,
    }) || (match o.limits.min_size {
        Some(min) => (len as u64) < min,
        None => false,
    })
}

/// Check if a file should be skipped based on existence checks.
pub fn check_existence_skip(dest_exists: bool, options: &TransferOptions) -> (r: bool)
    ensures
        r == existence_skips(options@, dest_exists),
{
    if options.existing() && !dest_exists {
        return true;
    }
    if options.ignore_existing() && dest_exists {
        return true;
    }
    false
}

fn close_in_time(a: i64, b: i64, window: u32) -> (r: bool)
    ensures
        r == times_agree(a, b, window),
{
    let d: i128 = a as i128 - b as i128;
    -(window as i128) <= d && d <= window as i128
}

/// Check if a file should be skipped based on size and mtime comparison.
pub fn quick_check_skip(
    dest: Option<&FileMetadata>,
    src_entry: &FileEntry,
    options: &TransferOptions,
) -> (r: bool)
    ensures
        r == quick_skips(
            options@,
            src_entry@,
            match dest {
                Some(m) => Some(*m),
                None => None,
            },
        ),
{
    if options.ignore_times() {
        return false;
    }
    let dest_meta = match dest {
        Some(m) => m,
        None => {
            return false;
        },
    };
    if options.update() && dest_meta.mtime > src_entry.mtime {
        return true;
    }
    if dest_meta.len != src_entry.len {
        return false;
    }
    if options.size_only() {
        return true;
    }
    close_in_time(dest_meta.mtime, src_entry.mtime, options.modify_window())
}

/// Check if an identical file exists in any of the alternate destination dirs.
///
/// Returns the path in the alternate directory if size and mtime match.
pub fn check_alt_dest(
    src_entry: &FileEntry,
    alt_dirs: &[Vec<u8>],
    metas: &[Option<FileMetadata>],
    options: &TransferOptions,
) -> (r: Option<Vec<u8>>)
    requires
        alt_dirs.len() == metas.len(),
    ensures
        match r {
            Some(p) => alt_dest(options@, src_entry@, path_views(alt_dirs@), metas@) == Some(p@),
            None => alt_dest(options@, src_entry@, path_views(alt_dirs@), metas@) is None,
        },
{
    let window: u32 = options.modify_window();
    let ghost o = options@;
    let ghost e = src_entry@;
    let mut i: usize = 0;
    while i < alt_dirs.len()
        invariant
            i <= alt_dirs.len(),
            alt_dirs.len() == metas.len(),
            o == options@,
            e == src_entry@,
            window == o.limits.modify_window,
            first_same(o, e, metas@, 0) == first_same(o, e, metas@, i as int),
        decreases alt_dirs.len() - i,
    {
        match metas[i] {
            Some(meta) => {
                if meta.len == src_entry.len && close_in_time(meta.mtime, src_entry.mtime, window) {
                    return Some(join_path(alt_dirs[i].as_slice(), src_entry.name.as_slice()));
                }
            },
            None => {},
        }
        i = i + 1;
    }
    None
}

/// A directory below the destination, unless it is absolute.
pub open spec fn resolved(dest: Seq<u8>, d: Seq<u8>) -> Seq<u8> {
    if is_absolute(d) {
        d
    } else {
        joined(dest, d)
    }
}

/// A directory below the destination, unless it is absolute.
pub fn resolve_dir(dest: &[u8], d: &[u8]) -> (r: Vec<u8>)
    ensures
        r@ == resolved(dest@, d@),
{
    if path_is_absolute(d) {
        copy_bytes(d)
    } else {
        join_path(dest, d)
    }
}

/// Resolve --link-dest directories relative to the destination.
pub fn resolve_link_dest_dirs(link_dest: &[Vec<u8>], dest: &[u8]) -> (r: Vec<Vec<u8>>)
    ensures
        path_views(r@) == Seq::new(
            link_dest@.len(),
            |i: int| resolved(dest@, link_dest@[i]@),
        ),
{
    let mut out: Vec<Vec<u8>> = Vec::new();
    let mut i: usize = 0;
    while i < link_dest.len()
        invariant
            i <= link_dest.len(),
            out.len() == i,
            forall|j: int| 0 <= j < i ==> (#[trigger] out@[j])@ == resolved(dest@, link_dest@[j]@),
        decreases link_dest.len() - i,
    {
        let d = resolve_dir(dest, link_dest[i].as_slice());
        out.push(d);
        i = i + 1;
    }
    assert(path_views(out@) =~= Seq::new(
        link_dest@.len(),
        |i: int| resolved(dest@, link_dest@[i]@),
    ));
    out
}

/// Check if a file should be skipped based on size limits.
pub fn check_size_limits(entry: &FileEntry, options: &TransferOptions) -> (r: bool)
    ensures
        r == size_skips(options@, entry@.len),
{
    let len: u64 = entry.len as u64;
    match options.max_size() {
        Some(max) => {
            if len > max {
                return true;
            }
        },
        None => {},
    }
    match options.min_size() {
        Some(min) => len < min,
        None => false,
    }
}

// ---------------------------------------------------------------------------
// Symbolic links
// ---------------------------------------------------------------------------

/// How much deeper a component leads.
pub open spec fn component_depth(c: Seq<u8>) -> int {
    if c == seq![0x2Eu8, 0x2Eu8] {
        -1
    } else if c.len() == 0 || c == seq![0x2Eu8] {
        0
    } else {
        1
    }
}

/// The components from a place on lead out of the tree, from a depth.
pub open spec fn leads_out(t: Seq<u8>, i: int, depth: int) -> bool
    decreases t.len() + 1 - i,
{
    if i < 0 || i >= t.len() {
        false
    } else {
        proof {
            component_end_bound(t, i);
        }
        let e = component_end(t, i);
        let d = depth + component_depth(t.subrange(i, e));
        d < 0 || leads_out(t, e + 1, d)
    }
}

/// A link target is unsafe: it is absolute, or its components lead out of the
/// tree at some point.
pub open spec fn unsafe_target(target: Seq<u8>) -> bool {
    let t = encode_utf8(lossy_text(target));
    is_absolute(t) || leads_out(t, 0, 0)
}

/// A component from a place on is `..`.
pub open spec fn climbs(t: Seq<u8>, i: int) -> bool
    decreases t.len() + 1 - i,
{
    if i < 0 || i >= t.len() {
        false
    } else {
        proof {
            component_end_bound(t, i);
        }
        let e = component_end(t, i);
        t.subrange(i, e) == seq![0x2Eu8, 0x2Eu8] || climbs(t, e + 1)
    }
}

/// Components without `..` never lead out of a tree.
pub proof fn without_parents_inside(t: Seq<u8>, i: int, depth: int)
    requires
        depth >= 0,
        !climbs(t, i),
    ensures
        !leads_out(t, i, depth),
    decreases t.len() + 1 - i,
{
    if 0 <= i < t.len() {
        component_end_bound(t, i);
        let e = component_end(t, i);
        without_parents_inside(t, e + 1, depth + component_depth(t.subrange(i, e)));
    }
}

/// A relative target that has no `..` among its components is safe.
pub proof fn plain_target_is_safe(target: Seq<u8>)
    requires
        !is_absolute(encode_utf8(lossy_text(target))),
        !climbs(encode_utf8(lossy_text(target)), 0),
    ensures
        !unsafe_target(target),
{
    without_parents_inside(encode_utf8(lossy_text(target)), 0, 0);
}

/// Check if a symlink target is unsafe (would escape the transfer tree).
pub fn is_unsafe_symlink(target: &[u8]) -> (r: bool)
    ensures
        r == unsafe_target(target@),
{
    let text = lossy_string(target);
    let t = text.as_str().as_bytes();
    if path_is_absolute(t) {
        return true;
    }
    let mut depth: i128 = 0;
    let mut i: usize = 0;
    while i < t.len()
        invariant
            i <= t.len(),
            0 <= depth <= i,
            t@ == encode_utf8(lossy_text(target@)),
            !is_absolute(t@),
            leads_out(t@, 0, 0) == leads_out(t@, i as int, depth as int),
        decreases t.len() - i,
    {
        let start: usize = i;
        while i < t.len() && t[i] != 0x2F
            invariant
                start <= i <= t.len(),
                component_end(t@, start as int) == component_end(t@, i as int),
            decreases t.len() - i,
        {
            i = i + 1;
        }
        let c = vstd::slice::slice_subrange(t, start, i);
        proof {
            component_end_bound(t@, start as int);
            assert(c@ =~= t@.subrange(start as int, i as int));
            if c.len() == 1 && c@[0] == 0x2E {
                assert(c@ =~= seq![0x2Eu8]);
            }
            if c.len() == 2 && c@[0] == 0x2E && c@[1] == 0x2E {
                assert(c@ =~= seq![0x2Eu8, 0x2Eu8]);
            }
        }
        if c.len() == 2 && c[0] == 0x2E && c[1] == 0x2E {
            if depth == 0 {
                return true;
            }
            depth = depth - 1;
        } else if !(c.len() == 0 || (c.len() == 1 && c[0] == 0x2E)) {
            depth = depth + 1;
        }
        if i == t.len() {
            assert(!leads_out(t@, i + 1, depth as int));
            return false;
        }
        i = i + 1;
    }
    false
}

// ---------------------------------------------------------------------------
// Writing
// ---------------------------------------------------------------------------

/// The name of a backup: the file's own name and the suffix.
pub open spec fn backup_name(path: Seq<u8>, suffix: Seq<char>) -> Seq<u8> {
    encode_utf8(
        lossy_text(
            match file_name_of(path) {
                Some(n) => n,
                None => Seq::empty(),
            },
        ) + suffix,
    )
}

/// The steps of a backup: the file moves to the backup directory, which is
/// made before, or to another name where it is.
pub open spec fn backup_steps(
    path: Seq<u8>,
    suffix: Seq<char>,
    backup_dir: Option<Seq<u8>>,
) -> Seq<StepView> {
    let name = backup_name(path, suffix);
    match backup_dir {
        Some(dir) => seq![
            must(FsActionView::MakeDir { path: dir, mode: 0o755 }),
            must(FsActionView::Rename { from: path, to: joined(dir, name) }),
        ],
        None => seq![must(FsActionView::Rename { from: path, to: renamed(path, name) })],
    }
}

/// Create a backup of a file before overwriting.
pub fn create_backup(path: &[u8], suffix: &str, backup_dir: Option<&[u8]>) -> (r: Vec<Step>)
    ensures
        step_views(r@) == backup_steps(
            path@,
            suffix@,
            match backup_dir {
                Some(d) => Some(d@),
                None => None,
            },
        ),
{
    let file_name: Vec<u8> = match path_file_name(path) {
        Some(n) => n,
        None => Vec::new(),
    };
    assert(file_name@ =~= match file_name_of(path@) {
        Some(n) => n,
        None => Seq::empty(),
    });
    let mut text = crate::text::to_chars(lossy_string(file_name.as_slice()).as_str());
    push_text(&mut text, suffix);
    let backup = from_chars(text.as_slice());
    let name = backup.as_str().as_bytes();
    let mut steps: Vec<Step> = Vec::new();
    assert(step_views(steps@) =~= Seq::empty());
    match backup_dir {
        Some(dir) => {
            push_step(&mut steps, FsAction::MakeDir { path: copy_bytes(dir), mode: 0o755 }, true);
            push_step(
                &mut steps,
                FsAction::Rename { from: copy_bytes(path), to: join_path(dir, name) },
                true,
            );
            assert(step_views(steps@) =~= backup_steps(path@, suffix@, Some(dir@)));
        },
        None => {
            push_step(
                &mut steps,
                FsAction::Rename { from: copy_bytes(path), to: path_with_name(path, name) },
                true,
            );
            assert(step_views(steps@) =~= backup_steps(path@, suffix@, None));
        },
    }
    steps
}

/// The permissions that a file gets: those of the entry, as the chmod options
/// change them, where permissions are preserved.
pub open spec fn file_mode(o: OptionsView, e: EntryView, changed: Option<u32>) -> Option<u32> {
    if o.archive.preserve_perms {
        Some(
            match changed {
                Some(m) => m,
                None => e.mode & 0o7777,
            },
        )
    } else {
        None
    }
}

/// The permissions that a file gets. `changed` is what the chmod options make
/// of the entry's permissions.
pub fn mode_for_file(entry: &FileEntry, options: &TransferOptions, changed: Option<u32>) -> (r:
    Option<u32>)
    ensures
        r == file_mode(options@, entry@, changed),
{
    if options.preserve_perms() {
        match changed {
            Some(m) => Some(m),
            None => Some(entry.mode & 0o7777),
        }
    } else {
        None
    }
}

/// How data of a length is written.
pub open spec fn write_method(o: OptionsView, len: usize) -> WriteMethod {
    if o.behavior.sparse {
        WriteMethod::Sparse
    } else if o.behavior.inplace {
        WriteMethod::InPlace
    } else if len as i64 >= STREAMING_THRESHOLD {
        WriteMethod::Streaming
    } else {
        WriteMethod::Whole
    }
}

/// Write a file choosing the appropriate method based on options.
pub fn write_file_with_options(
    dest_path: &[u8],
    data_len: usize,
    entry: &FileEntry,
    options: &TransferOptions,
    changed: Option<u32>,
) -> (r: FsAction)
    ensures
        r@ == (FsActionView::Write {
            path: dest_path@,
            mode: file_mode(options@, entry@, changed),
            method: write_method(options@, data_len),
        }),
{
    let mode = mode_for_file(entry, options, changed);
    let method = if options.sparse() {
        WriteMethod::Sparse
    } else if options.inplace() {
        WriteMethod::InPlace
    } else if data_len as i64 >= STREAMING_THRESHOLD {
        WriteMethod::Streaming
    } else {
        WriteMethod::Whole
    };
    FsAction::Write { path: copy_bytes(dest_path), mode, method }
}

/// Whether the owner of a file is set.
pub open spec fn sets_owner(o: OptionsView) -> bool {
    o.archive.preserve_owner || o.limits.chown_uid is Some || o.limits.chown_gid is Some
}

/// One of two numbers, the first where it is given.
pub open spec fn given_or(a: Option<u32>, b: u32) -> u32 {
    match a {
        Some(x) => x,
        None => b,
    }
}

/// The steps that set a file's times and owner; none of them is required.
pub open spec fn metadata_steps(path: Seq<u8>, e: EntryView, o: OptionsView) -> Seq<StepView> {
    (if o.archive.preserve_times {
        seq![
            may(FsActionView::SetTimes { path, mtime: e.mtime, nsec: e.mtime_nsec }),
        ]
    } else {
        Seq::empty()
    }) + (if sets_owner(o) {
        seq![
            may(
                FsActionView::SetOwner {
                    path,
                    uid: given_or(o.limits.chown_uid, e.uid),
                    gid: given_or(o.limits.chown_gid, e.gid),
                },
            ),
        ]
    } else {
        Seq::empty()
    })
}

/// Set file metadata (times, ownership) based on options.
pub fn set_file_metadata(dest_path: &[u8], entry: &FileEntry, options: &TransferOptions) -> (r: Vec<
    Step,
>)
    ensures
        step_views(r@) == metadata_steps(dest_path@, entry@, options@),
{
    let mut steps: Vec<Step> = Vec::new();
    assert(step_views(steps@) =~= Seq::empty());
    if options.preserve_times() {
        push_step(
            &mut steps,
            FsAction::SetTimes {
                path: copy_bytes(dest_path),
                mtime: entry.mtime,
                nsec: entry.mtime_nsec,
            },
            false,
        );
    }
    let uid: u32 = match options.chown_uid() {
        Some(u) => u,
        None => entry.uid,
    };
    let gid: u32 = match options.chown_gid() {
        Some(g) => g,
        None => entry.gid,
    };
    if options.preserve_owner() || options.chown_uid().is_some() || options.chown_gid().is_some() {
        push_step(
            &mut steps,
            FsAction::SetOwner { path: copy_bytes(dest_path), uid, gid },
            false,
        );
    }
    assert(step_views(steps@) =~= metadata_steps(dest_path@, entry@, options@));
    steps
}

// ---------------------------------------------------------------------------
// Itemized changes
// ---------------------------------------------------------------------------

/// The letter of an entry's type.
pub open spec fn item_letter(mode: u32) -> char {
    let t = file_type(mode);
    if t == S_IFDIR {
        'd'
    } else if t == WIRE_S_IFLNK {
        'L'
    } else if t == S_IFBLK || t == S_IFCHR {
        'D'
    } else {
        'f'
    }
}

/// What differs between an entry and its destination.
pub open spec fn itemized(
    o: OptionsView,
    e: EntryView,
    dest: Option<FileMetadata>,
) -> ItemizedChanges {
    match dest {
        None => ItemizedChanges {
            update_type: 'c',
            file_type: item_letter(e.mode),
            checksum_changed: false,
            size_changed: true,
            time_changed: true,
            perms_changed: true,
            owner_changed: true,
            group_changed: true,
        },
        Some(m) => {
            let size = m.len != e.len;
            let time = m.mtime != e.mtime;
            let perms = o.archive.preserve_perms && m.mode & 0o7777 != e.mode & 0o7777;
            let owner = o.archive.preserve_owner && m.uid != e.uid;
            let group = (o.archive.preserve_group || o.archive.preserve_owner) && m.gid != e.gid;
            ItemizedChanges {
                update_type: if size || time || perms || owner || group {
                    '>'
                } else {
                    '.'
                },
                file_type: item_letter(e.mode),
                checksum_changed: false,
                size_changed: size,
                time_changed: time,
                perms_changed: perms,
                owner_changed: owner,
                group_changed: group,
            }
        },
    }
}

/// Compute itemized change flags by comparing source entry against destination.
pub fn compute_itemized(
    src_entry: &FileEntry,
    dest: Option<&FileMetadata>,
    options: &TransferOptions,
) -> (r: ItemizedChanges)
    ensures
        r == itemized(
            options@,
            src_entry@,
            match dest {
                Some(m) => Some(*m),
                None => None,
            },
        ),
{
    let file_type = if src_entry.is_dir() {
        'd'
    } else if src_entry.is_symlink() {
        'L'
    } else if src_entry.is_device() {
        'D'
    } else {
        'f'
    };
    let dest_meta = match dest {
        Some(m) => m,
        None => {
            return ItemizedChanges {
                update_type: 'c',
                file_type,
                checksum_changed: false,
                size_changed: true,
                time_changed: true,
                perms_changed: true,
                owner_changed: true,
                group_changed: true,
            };
        },
    };
    let size_changed = dest_meta.len != src_entry.len;
    let time_changed = dest_meta.mtime != src_entry.mtime;
    let perms_changed = options.preserve_perms() && (dest_meta.mode & 0o7777) != (src_entry.mode
        & 0o7777);
    let owner_changed = options.preserve_owner() && dest_meta.uid != src_entry.uid;
    let group_changed = (options.preserve_group() || options.preserve_owner()) && dest_meta.gid
        != src_entry.gid;
    let any_change = size_changed || time_changed || perms_changed || owner_changed
        || group_changed;
    ItemizedChanges {
        update_type: if any_change {
            '>'
        } else {
            '.'
        },
        file_type,
        checksum_changed: false,
        size_changed,
        time_changed,
        perms_changed,
        owner_changed,
        group_changed,
    }
}

} // verus!

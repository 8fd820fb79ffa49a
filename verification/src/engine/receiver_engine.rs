//! Destination-side file operations.
//!
//! Each entry of a file list is dispatched to one of: handled at once, skipped,
//! deferred as a hard link, or in need of a data transfer. What the destination
//! holds is probed before; what has to be done there comes out as steps.

use vstd::prelude::*;
use vstd::utf8::encode_utf8;

use crate::engine::file_decision::{
    alt_dest, backup_steps, check_alt_dest, check_existence_skip, check_size_limits, create_backup,
    existence_skips, file_mode, is_unsafe_symlink, metadata_steps, mode_for_file, quick_check_skip,
    quick_skips, resolve_dir, resolve_link_dest_dirs, resolved, set_file_metadata, size_skips,
    unsafe_target, write_file_with_options, write_method,
};
use crate::engine::delete::listing_views;
use crate::engine::fuzzy::{
    closest, closest_is_similar, closest_name, exact_match, listed_names,
};
use crate::filelist::entry::{
    copy_bytes, entry_views, file_name_of, file_type, opt_bytes, path_file_name, same_bytes,
    EntryView, FileEntry, S_IFDIR, S_IFLNK, S_IFMT, S_IFREG, WIRE_S_IFLNK,
};
use crate::fs::metadata::{is_directory, DirEntry, DirEntryView, FileMetadata};
use crate::fs::plan::{
    may, must, push_step, push_steps, step_views, FsAction, FsActionView, Step, StepView,
    WriteMethod,
};
use crate::options::{path_views, OptionsView, TransferConfig, TransferOptions};
use crate::path::{join_path, joined, parent_of, path_parent, paths_equal, same_path};

verus! {

/// What kind of non-transfer handling occurred.
#[derive(Debug, Clone, Copy, PartialEq, Eq, Structural)]
pub enum HandledKind {
    Directory,
    Symlink,
    LinkDest,
    CopyDest,
    DryRun,
}

/// Result of dispatching a single file entry.
#[derive(Debug)]
pub enum EntryAction {
    /// Fully handled once the steps are taken.
    Handled { kind: HandledKind, steps: Vec<Step> },
    /// Skipped (up to date, filtered, size limits).
    Skipped,
    /// Hardlink duplicate -- defer until first occurrences are on disk.
    DeferredHardlink { source_name: Vec<u8> },
    /// A hard link from a `--link-dest` directory is to be tried; the entry is
    /// dispatched again with the outcome.
    TryLink { steps: Vec<Step> },
    /// A copy from a `--copy-dest` directory is to be tried; the entry is
    /// dispatched again with the outcome.
    TryCopy { steps: Vec<Step> },
    /// Needs data transfer. The file at the path, if there is one, is the
    /// basis of the delta computation.
    NeedsTransfer { basis: Vec<u8> },
}

/// The view of an [`EntryAction`].
#[verifier::ext_equal]
pub enum ActionView {
    Handled { kind: HandledKind, steps: Seq<StepView> },
    Skipped,
    DeferredHardlink { source_name: Seq<u8> },
    TryLink { steps: Seq<StepView> },
    TryCopy { steps: Seq<StepView> },
    NeedsTransfer { basis: Seq<u8> },
}

impl View for EntryAction {
    type V = ActionView;

    open spec fn view(&self) -> ActionView {
        match *self {
            EntryAction::Handled { kind, steps } => ActionView::Handled {
                kind,
                steps: step_views(steps@),
            },
            EntryAction::Skipped => ActionView::Skipped,
            EntryAction::DeferredHardlink { source_name } => ActionView::DeferredHardlink {
                source_name: source_name@,
            },
            EntryAction::TryLink { steps } => ActionView::TryLink { steps: step_views(steps@) },
            EntryAction::TryCopy { steps } => ActionView::TryCopy { steps: step_views(steps@) },
            EntryAction::NeedsTransfer { basis } => ActionView::NeedsTransfer { basis: basis@ },
        }
    }
}

/// What was found on the destination for an entry.
#[derive(Debug)]
pub struct DestProbe {
    /// The destination itself, links not followed.
    pub dest: Option<FileMetadata>,
    /// The destination, links followed.
    pub followed: Option<FileMetadata>,
    /// The same name in each `--compare-dest` directory.
    pub compare: Vec<Option<FileMetadata>>,
    /// The same name in each `--link-dest` directory.
    pub link: Vec<Option<FileMetadata>>,
    /// The same name in each `--copy-dest` directory.
    pub copy: Vec<Option<FileMetadata>>,
}

impl DestProbe {
    /// There is one finding for each alternate directory.
    pub open spec fn fits(&self, o: OptionsView) -> bool {
        &&& self.compare@.len() == o.paths.compare_dest.len()
        &&& self.link@.len() == o.paths.link_dest.len()
        &&& self.copy@.len() == o.paths.copy_dest.len()
    }
}

/// What came of a link or a copy that was tried.
#[derive(Debug, Clone, Copy, PartialEq, Eq, Structural)]
pub struct Attempts {
    pub link: Option<bool>,
    pub copy: Option<bool>,
}

impl Attempts {
    /// Nothing was tried yet.
    pub fn none_yet() -> (r: Attempts)
        ensures
            r == (Attempts { link: None, copy: None }),
    {
        Attempts { link: None, copy: None }
    }
}

// ---------------------------------------------------------------------------
// What is decided
// ---------------------------------------------------------------------------

/// A file is skipped: it must or must not exist, its size is out of bounds, it
/// stands in a directory to compare with, or it is up to date.
pub open spec fn skips(o: OptionsView, e: EntryView, p: DestProbe) -> bool {
    ||| existence_skips(o, p.dest is Some)
    ||| size_skips(o, e.len)
    ||| o.paths.compare_dest.len() > 0 && alt_dest(o, e, o.paths.compare_dest, p.compare@) is Some
    ||| !o.behavior.checksum_mode && quick_skips(o, e, p.dest)
}

/// The permissions of a new directory before chmod options are applied.
pub open spec fn dir_base_mode(o: OptionsView, e: EntryView) -> u32 {
    if o.archive.preserve_perms {
        e.mode & 0o7777
    } else {
        0o755
    }
}

/// The permissions that the chmod options change.
pub open spec fn mode_to_change(o: OptionsView, e: EntryView) -> u32 {
    if file_type(e.mode) == S_IFDIR {
        dir_base_mode(o, e)
    } else {
        e.mode & 0o7777
    }
}

/// A link to a directory stands where a directory is to be made, and is kept.
pub open spec fn keeps_dirlink(o: OptionsView, p: DestProbe) -> bool {
    o.tree.keep_dirlinks && (match p.dest {
        Some(m) => m.mode & S_IFMT == S_IFLNK,
        None => false,
    }) && (match p.followed {
        Some(m) => is_directory(m),
        None => false,
    })
}

/// The steps that make a directory. `changed` is what the chmod options make of
/// its permissions.
pub open spec fn directory_steps(
    o: OptionsView,
    dest: Seq<u8>,
    e: EntryView,
    p: DestProbe,
    changed: Option<u32>,
) -> Seq<StepView> {
    if o.output.dry_run || keeps_dirlink(o, p) {
        Seq::empty()
    } else {
        seq![
            must(
                FsActionView::MakeDir {
                    path: joined(dest, e.name),
                    mode: match changed {
                        Some(m) => m,
                        None => dir_base_mode(o, e),
                    },
                },
            ),
        ]
    }
}

/// The steps that make a symbolic link.
pub open spec fn symlink_steps(o: OptionsView, dest: Seq<u8>, e: EntryView) -> Seq<StepView> {
    if o.output.dry_run || e.link_target.len() == 0 {
        Seq::empty()
    } else {
        seq![
            must(FsActionView::SymLink { target: e.link_target, path: joined(dest, e.name) }),
        ]
    }
}

/// A symbolic link is left out because its target leads out of the tree.
pub open spec fn refuses_link(o: OptionsView, e: EntryView) -> bool {
    o.tree.safe_links && unsafe_target(e.link_target)
}

/// The file to link to, where there is one and links are made.
pub open spec fn link_source(
    o: OptionsView,
    dest: Seq<u8>,
    e: EntryView,
    p: DestProbe,
) -> Option<Seq<u8>> {
    if o.paths.link_dest.len() == 0 || o.output.dry_run {
        None
    } else {
        alt_dest(o, e, resolved_dirs(dest, o.paths.link_dest), p.link@)
    }
}

/// Directories below the destination, unless they are absolute.
pub open spec fn resolved_dirs(dest: Seq<u8>, dirs: Seq<Seq<u8>>) -> Seq<Seq<u8>> {
    Seq::new(dirs.len(), |i: int| resolved(dest, dirs[i]))
}

/// The file to copy, where there is one and copies are made.
pub open spec fn copy_source(o: OptionsView, e: EntryView, p: DestProbe) -> Option<Seq<u8>> {
    if o.paths.copy_dest.len() == 0 || o.output.dry_run {
        None
    } else {
        alt_dest(o, e, o.paths.copy_dest, p.copy@)
    }
}

/// The steps that replace a file by a hard link.
pub open spec fn link_steps(from: Seq<u8>, to: Seq<u8>) -> Seq<StepView> {
    seq![
        may(FsActionView::RemoveFile { path: to }),
        must(FsActionView::HardLink { from, to }),
    ]
}

/// The steps that copy a file.
pub open spec fn copy_steps(from: Seq<u8>, to: Seq<u8>) -> Seq<StepView> {
    seq![must(FsActionView::CopyFile { from, to })]
}

/// What is done about an entry.
pub open spec fn dispatched(
    o: OptionsView,
    dest: Seq<u8>,
    e: EntryView,
    p: DestProbe,
    tried: Attempts,
    changed: Option<u32>,
) -> ActionView {
    let path = joined(dest, e.name);
    if file_type(e.mode) == S_IFDIR {
        ActionView::Handled {
            kind: HandledKind::Directory,
            steps: directory_steps(o, dest, e, p, changed),
        }
    } else if file_type(e.mode) == WIRE_S_IFLNK && o.archive.preserve_links {
        if refuses_link(o, e) {
            ActionView::Skipped
        } else {
            ActionView::Handled { kind: HandledKind::Symlink, steps: symlink_steps(o, dest, e) }
        }
    } else if file_type(e.mode) != S_IFREG {
        ActionView::Skipped
    } else if e.hlink_source is Some {
        ActionView::DeferredHardlink { source_name: e.hlink_source->0 }
    } else if skips(o, e, p) {
        ActionView::Skipped
    } else if link_source(o, dest, e, p) is Some && tried.link is None {
        ActionView::TryLink { steps: link_steps(link_source(o, dest, e, p)->0, path) }
    } else if link_source(o, dest, e, p) is Some && tried.link->0 {
        ActionView::Handled { kind: HandledKind::LinkDest, steps: Seq::empty() }
    } else if copy_source(o, e, p) is Some && tried.copy is None {
        ActionView::TryCopy { steps: copy_steps(copy_source(o, e, p)->0, path) }
    } else if copy_source(o, e, p) is Some && tried.copy->0 {
        ActionView::Handled { kind: HandledKind::CopyDest, steps: Seq::empty() }
    } else if o.output.dry_run {
        ActionView::Handled { kind: HandledKind::DryRun, steps: Seq::empty() }
    } else {
        ActionView::NeedsTransfer { basis: path }
    }
}

/// The name under which a file is written into the partial directory.
pub open spec fn partial_path(dir: Seq<u8>, path: Seq<u8>, fallback: Seq<u8>) -> Seq<u8> {
    joined(
        dir,
        match file_name_of(path) {
            Some(n) => n,
            None => fallback,
        },
    )
}

/// The steps of a backup, where one is wanted and there is something to keep.
pub open spec fn wanted_backup(
    o: OptionsView,
    dest: Seq<u8>,
    path: Seq<u8>,
    exists: bool,
) -> Seq<StepView> {
    if o.behavior.backup && exists {
        backup_steps(path, o.texts.suffix, backup_target(o, dest))
    } else {
        Seq::empty()
    }
}

/// The directory of backups, below the destination unless it is absolute.
pub open spec fn backup_target(o: OptionsView, dest: Seq<u8>) -> Option<Seq<u8>> {
    match o.paths.backup_dir {
        Some(d) => Some(resolved(dest, d)),
        None => None,
    }
}

/// The step that removes a source file after its transfer.
pub open spec fn source_removal(o: OptionsView, source: Option<Seq<u8>>) -> Seq<StepView> {
    if source is Some && o.tree.remove_source_files && !o.output.dry_run {
        seq![may(FsActionView::RemoveFile { path: source->0 })]
    } else {
        Seq::empty()
    }
}

/// The steps that write whole file data: backup, the partial directory, the
/// data, the move into place, metadata, and the removal of the source.
pub open spec fn receive_steps(
    o: OptionsView,
    dest: Seq<u8>,
    e: EntryView,
    exists: bool,
    data_len: usize,
    source: Option<Seq<u8>>,
    changed: Option<u32>,
) -> Seq<StepView> {
    let path = joined(dest, e.name);
    let target = match o.paths.partial_dir {
        Some(d) => partial_path(d, path, Seq::empty()),
        None => path,
    };
    wanted_backup(o, dest, path, exists) + (match o.paths.partial_dir {
        Some(d) => seq![must(FsActionView::MakeDir { path: d, mode: 0o755 })],
        None => Seq::empty(),
    }) + seq![
        must(
            FsActionView::Write {
                path: target,
                mode: file_mode(o, e, changed),
                method: write_method(o, data_len),
            },
        ),
    ] + (if !same_path(target, path) {
        seq![must(FsActionView::Rename { from: target, to: path })]
    } else {
        Seq::empty()
    }) + metadata_steps(path, e, o) + source_removal(o, source)
}

/// The name of a file in the partial directory that has no name of its own.
pub open spec fn partial_name() -> Seq<u8> {
    encode_utf8("partial"@)
}

/// The steps that open a file for streaming: behind its old data in append
/// mode; else after a backup, in place, in the partial directory, or to be put
/// into place at the end.
pub open spec fn writer_steps(
    o: OptionsView,
    dest: Seq<u8>,
    e: EntryView,
    exists: bool,
    parent_exists: bool,
    changed: Option<u32>,
) -> Seq<StepView> {
    let path = joined(dest, e.name);
    if o.behavior.append || o.behavior.append_verify {
        parent_steps(path, parent_exists) + seq![
            must(FsActionView::Write { path, mode: None, method: WriteMethod::Append }),
        ]
    } else {
        wanted_backup(o, dest, path, exists) + (if o.behavior.inplace {
            seq![
                must(
                    FsActionView::Write {
                        path,
                        mode: file_mode(o, e, changed),
                        method: WriteMethod::InPlace,
                    },
                ),
            ]
        } else if o.paths.partial_dir is Some {
            let d = o.paths.partial_dir->0;
            seq![
                must(FsActionView::MakeDir { path: d, mode: 0o755 }),
                must(
                    FsActionView::Write {
                        path: partial_path(d, e.name, partial_name()),
                        mode: file_mode(o, e, changed),
                        method: WriteMethod::Streaming,
                    },
                ),
            ]
        } else {
            seq![
                must(
                    FsActionView::Write {
                        path,
                        mode: file_mode(o, e, changed),
                        method: WriteMethod::Streaming,
                    },
                ),
            ]
        })
    }
}

/// The steps that make the directory of a path.
pub open spec fn parent_steps(path: Seq<u8>, parent_exists: bool) -> Seq<StepView> {
    match parent_of(path) {
        Some(d) => if parent_exists {
            Seq::empty()
        } else {
            seq![must(FsActionView::MakeDir { path: d, mode: 0o755 })]
        },
        None => Seq::empty(),
    }
}

/// The steps that finish a streamed file: the move out of the partial
/// directory, metadata, and the removal of the source.
pub open spec fn finish_steps(
    o: OptionsView,
    dest: Seq<u8>,
    e: EntryView,
    source: Option<Seq<u8>>,
) -> Seq<StepView> {
    let path = joined(dest, e.name);
    (match o.paths.partial_dir {
        Some(d) => {
            let from = partial_path(d, path, partial_name());
            if !same_path(from, path) {
                seq![must(FsActionView::Rename { from, to: path })]
            } else {
                Seq::empty()
            }
        },
        None => Seq::empty(),
    }) + metadata_steps(path, e, o) + source_removal(o, source)
}

/// A hard link to make once all files are in place.
#[derive(Debug)]
pub struct DeferredLink {
    pub from: Vec<u8>,
    pub to: Vec<u8>,
}

/// The links that deferred entries become: one for each whose source is in the
/// list.
pub open spec fn deferred_links(
    dest: Seq<u8>,
    deferred: Seq<(Seq<u8>, Seq<u8>)>,
    names: Seq<Seq<u8>>,
) -> Seq<(Seq<u8>, Seq<u8>)>
    decreases deferred.len(),
{
    if deferred.len() == 0 {
        Seq::empty()
    } else {
        let before = deferred_links(dest, deferred.drop_last(), names);
        let (dup, source) = deferred.last();
        if names.contains(source) {
            before.push((joined(dest, source), joined(dest, dup)))
        } else {
            before
        }
    }
}

/// The steps that make a deferred link; a dry run takes none.
pub open spec fn deferred_steps(o: OptionsView, from: Seq<u8>, to: Seq<u8>) -> Seq<StepView> {
    if o.output.dry_run {
        Seq::empty()
    } else {
        link_steps(from, to)
    }
}

/// How many links there are of those whose steps succeeded.
pub open spec fn links_created(made: Seq<bool>) -> nat {
    made.filter(|m: bool| m).len()
}

/// The views of deferred entries: their name and that of their source.
pub open spec fn deferred_views(s: Seq<(Vec<u8>, Vec<u8>)>) -> Seq<(Seq<u8>, Seq<u8>)> {
    Seq::new(s.len(), |i: int| (s[i].0@, s[i].1@))
}

/// The views of links.
pub open spec fn link_views(s: Seq<DeferredLink>) -> Seq<(Seq<u8>, Seq<u8>)> {
    Seq::new(s.len(), |i: int| (s[i].from@, s[i].to@))
}

// ---------------------------------------------------------------------------
// Decisions
// ---------------------------------------------------------------------------

fn should_skip_impl(entry: &FileEntry, probe: &DestProbe, options: &TransferOptions) -> (r: bool)
    requires
        probe.fits(options@),
    ensures
        r == skips(options@, entry@, *probe),
{
    if check_existence_skip(probe.dest.is_some(), options) {
        return true;
    }
    if check_size_limits(entry, options) {
        return true;
    }
    if options.compare_dest().len() > 0 {
        if check_alt_dest(
            entry,
            options.compare_dest(),
            probe.compare.as_slice(),
            options,
        ).is_some() {
            return true;
        }
    }
    if !options.checksum_mode() {
        return quick_check_skip(probe.dest.as_ref(), entry, options);
    }
    false
}

fn create_directory_impl(
    dest: &[u8],
    entry: &FileEntry,
    probe: &DestProbe,
    options: &TransferOptions,
    changed: Option<u32>,
) -> (r: Vec<Step>)
    ensures
        step_views(r@) == directory_steps(options@, dest@, entry@, *probe, changed),
{
    let mut steps: Vec<Step> = Vec::new();
    assert(step_views(steps@) =~= Seq::empty());
    let is_link = match &probe.dest {
        Some(m) => m.mode & S_IFMT == S_IFLNK,
        None => false,
    };
    let leads_to_dir = match &probe.followed {
        Some(m) => m.is_dir(),
        None => false,
    };
    if !(options.keep_dirlinks() && is_link && leads_to_dir) && !options.dry_run() {
        let mode: u32 = match changed {
            Some(m) => m,
            None => if options.preserve_perms() {
                entry.mode & 0o7777
            } else {
                0o755
            },
        };
        push_step(
            &mut steps,
            FsAction::MakeDir { path: join_path(dest, entry.name.as_slice()), mode },
            true,
        );
    }
    assert(step_views(steps@) =~= directory_steps(options@, dest@, entry@, *probe, changed));
    steps
}

fn create_symlink_impl(dest: &[u8], entry: &FileEntry, options: &TransferOptions) -> (r: Option<
    Vec<Step>,
>)
    ensures
        match r {
            None => refuses_link(options@, entry@),
            Some(s) => !refuses_link(options@, entry@) && step_views(s@) == symlink_steps(
                options@,
                dest@,
                entry@,
            ),
        },
{
    if options.safe_links() && is_unsafe_symlink(entry.link_target.as_slice()) {
        return None;
    }
    let mut steps: Vec<Step> = Vec::new();
    assert(step_views(steps@) =~= Seq::empty());
    if !options.dry_run() && entry.link_target.len() > 0 {
        push_step(
            &mut steps,
            FsAction::SymLink {
                target: copy_bytes(entry.link_target.as_slice()),
                path: join_path(dest, entry.name.as_slice()),
            },
            true,
        );
    }
    assert(step_views(steps@) =~= symlink_steps(options@, dest@, entry@));
    Some(steps)
}

fn try_link_dest_impl(
    dest: &[u8],
    entry: &FileEntry,
    probe: &DestProbe,
    link_dests: &Vec<Vec<u8>>,
    options: &TransferOptions,
) -> (r: Option<Vec<Step>>)
    requires
        probe.fits(options@),
        path_views(link_dests@) == resolved_dirs(dest@, options@.paths.link_dest),
    ensures
        match r {
            None => link_source(options@, dest@, entry@, *probe) is None,
            Some(s) => link_source(options@, dest@, entry@, *probe) is Some && step_views(s@)
                == link_steps(
                link_source(options@, dest@, entry@, *probe)->0,
                joined(dest@, entry@.name),
            ),
        },
{
    assert(path_views(link_dests@).len() == link_dests.len());
    if link_dests.len() == 0 || options.dry_run() {
        return None;
    }
    match check_alt_dest(entry, link_dests.as_slice(), probe.link.as_slice(), options) {
        None => None,
        Some(from) => {
            Some(make_link_steps(from, join_path(dest, entry.name.as_slice())))
        },
    }
}

fn try_copy_dest_impl(
    dest: &[u8],
    entry: &FileEntry,
    probe: &DestProbe,
    options: &TransferOptions,
) -> (r: Option<Vec<Step>>)
    requires
        probe.fits(options@),
    ensures
        match r {
            None => copy_source(options@, entry@, *probe) is None,
            Some(s) => copy_source(options@, entry@, *probe) is Some && step_views(s@)
                == copy_steps(copy_source(options@, entry@, *probe)->0, joined(dest@, entry@.name)),
        },
{
    if options.copy_dest().len() == 0 || options.dry_run() {
        return None;
    }
    match check_alt_dest(entry, options.copy_dest(), probe.copy.as_slice(), options) {
        None => None,
        Some(from) => {
            let to = join_path(dest, entry.name.as_slice());
            let ghost want = copy_steps(from@, to@);
            let mut steps: Vec<Step> = Vec::new();
            push_step(&mut steps, FsAction::CopyFile { from, to }, true);
            assert(step_views(steps@) =~= want);
            Some(steps)
        },
    }
}

fn no_steps() -> (r: Vec<Step>)
    ensures
        step_views(r@) == Seq::<StepView>::empty(),
{
    let r: Vec<Step> = Vec::new();
    assert(step_views(r@) =~= Seq::<StepView>::empty());
    r
}

fn dispatch_entry_impl(
    dest: &[u8],
    entry: &FileEntry,
    probe: &DestProbe,
    tried: Attempts,
    link_dests: &Vec<Vec<u8>>,
    options: &TransferOptions,
    changed: Option<u32>,
) -> (r: EntryAction)
    requires
        probe.fits(options@),
        path_views(link_dests@) == resolved_dirs(dest@, options@.paths.link_dest),
    ensures
        r@ == dispatched(options@, dest@, entry@, *probe, tried, changed),
{
    if entry.is_dir() {
        let steps = create_directory_impl(dest, entry, probe, options, changed);
        return EntryAction::Handled { kind: HandledKind::Directory, steps };
    }
    if entry.is_symlink() && options.preserve_links() {
        return match create_symlink_impl(dest, entry, options) {
            None => EntryAction::Skipped,
            Some(steps) => EntryAction::Handled { kind: HandledKind::Symlink, steps },
        };
    }
    if !entry.is_file() {
        return EntryAction::Skipped;
    }
    match &entry.hlink_source {
        Some(source_name) => {
            return EntryAction::DeferredHardlink {
                source_name: copy_bytes(source_name.as_slice()),
            };
        },
        None => {},
    }
    if should_skip_impl(entry, probe, options) {
        return EntryAction::Skipped;
    }
    match try_link_dest_impl(dest, entry, probe, link_dests, options) {
        Some(steps) => {
            match tried.link {
                None => {
                    return EntryAction::TryLink { steps };
                },
                Some(done) => {
                    if done {
                        return EntryAction::Handled {
                            kind: HandledKind::LinkDest,
                            steps: no_steps(),
                        };
                    }
                },
            }
        },
        None => {},
    }
    match try_copy_dest_impl(dest, entry, probe, options) {
        Some(steps) => {
            match tried.copy {
                None => {
                    return EntryAction::TryCopy { steps };
                },
                Some(done) => {
                    if done {
                        return EntryAction::Handled {
                            kind: HandledKind::CopyDest,
                            steps: no_steps(),
                        };
                    }
                },
            }
        },
        None => {},
    }
    if options.dry_run() {
        return EntryAction::Handled { kind: HandledKind::DryRun, steps: no_steps() };
    }
    EntryAction::NeedsTransfer { basis: join_path(dest, entry.name.as_slice()) }
}

fn push_source_removal(
    steps: &mut Vec<Step>,
    options: &TransferOptions,
    source: Option<&[u8]>,
)
    ensures
        step_views(final(steps)@) == step_views(old(steps)@) + source_removal(
            options@,
            match source {
                Some(s) => Some(s@),
                None => None,
            },
        ),
{
    let ghost had = step_views(steps@);
    match source {
        Some(src) => {
            if options.remove_source_files() && !options.dry_run() {
                push_step(steps, FsAction::RemoveFile { path: copy_bytes(src) }, false);
            }
            assert(step_views(steps@) =~= had + source_removal(options@, Some(src@)));
        },
        None => {
            assert(step_views(steps@) =~= had + source_removal(options@, None));
        },
    }
}

fn backup_impl(
    dest: &[u8],
    path: &[u8],
    options: &TransferOptions,
    backup_dir: Option<&[u8]>,
    exists: bool,
) -> (r: Vec<Step>)
    requires
        (match backup_dir {
            Some(d) => Some(d@),
            None => None,
        }) == backup_target(options@, dest@),
    ensures
        step_views(r@) == wanted_backup(options@, dest@, path@, exists),
{
    if options.backup() && exists {
        create_backup(path, options.suffix(), backup_dir)
    } else {
        no_steps()
    }
}

fn partial_file(dir: &[u8], path: &[u8], fallback: &[u8]) -> (r: Vec<u8>)
    ensures
        r@ == partial_path(dir@, path@, fallback@),
{
    match path_file_name(path) {
        Some(n) => join_path(dir, n.as_slice()),
        None => join_path(dir, fallback),
    }
}

fn receive_file_impl(
    dest: &[u8],
    entry: &FileEntry,
    exists: bool,
    data_len: usize,
    source: Option<&[u8]>,
    options: &TransferOptions,
    backup_dir: Option<&[u8]>,
    changed: Option<u32>,
) -> (r: Vec<Step>)
    requires
        (match backup_dir {
            Some(d) => Some(d@),
            None => None,
        }) == backup_target(options@, dest@),
    ensures
        step_views(r@) == receive_steps(
            options@,
            dest@,
            entry@,
            exists,
            data_len,
            match source {
                Some(s) => Some(s@),
                None => None,
            },
            changed,
        ),
{
    let ghost o = options@;
    let path = join_path(dest, entry.name.as_slice());
    let mut steps = backup_impl(dest, path.as_slice(), options, backup_dir, exists);
    let ghost s0 = step_views(steps@);
    let target: Vec<u8> = match options.partial_dir() {
        Some(d) => {
            push_step(
                &mut steps,
                FsAction::MakeDir { path: copy_bytes(d.as_slice()), mode: 0o755 },
                true,
            );
            let none: Vec<u8> = Vec::new();
            assert(none@ =~= Seq::<u8>::empty());
            partial_file(d.as_slice(), path.as_slice(), none.as_slice())
        },
        None => copy_bytes(path.as_slice()),
    };
    let ghost made = match o.paths.partial_dir {
        Some(d) => seq![must(FsActionView::MakeDir { path: d, mode: 0o755 })],
        None => Seq::empty(),
    };
    assert(step_views(steps@) =~= s0 + made);
    let write = write_file_with_options(target.as_slice(), data_len, entry, options, changed);
    let ghost wrote = must(write@);
    push_step(&mut steps, write, true);
    assert(step_views(steps@) =~= s0 + made + seq![wrote]);
    let ghost moved = if !same_path(target@, path@) {
        seq![must(FsActionView::Rename { from: target@, to: path@ })]
    } else {
        Seq::empty()
    };
    if !paths_equal(target.as_slice(), path.as_slice()) {
        push_step(
            &mut steps,
            FsAction::Rename { from: target, to: copy_bytes(path.as_slice()) },
            true,
        );
    }
    assert(step_views(steps@) =~= s0 + made + seq![wrote] + moved);
    let meta = set_file_metadata(path.as_slice(), entry, options);
    push_steps(&mut steps, meta);
    push_source_removal(&mut steps, options, source);
    steps
}

fn ensure_parent_impl(path: &[u8], parent_exists: bool) -> (r: Vec<Step>)
    ensures
        step_views(r@) == parent_steps(path@, parent_exists),
{
    let mut steps = no_steps();
    match path_parent(path) {
        Some(d) => {
            if !parent_exists {
                push_step(&mut steps, FsAction::MakeDir { path: d, mode: 0o755 }, true);
            }
        },
        None => {},
    }
    assert(step_views(steps@) =~= parent_steps(path@, parent_exists));
    steps
}

fn create_writer_impl(
    dest: &[u8],
    entry: &FileEntry,
    exists: bool,
    parent_exists: bool,
    options: &TransferOptions,
    backup_dir: Option<&[u8]>,
    changed: Option<u32>,
) -> (r: Vec<Step>)
    requires
        (match backup_dir {
            Some(d) => Some(d@),
            None => None,
        }) == backup_target(options@, dest@),
    ensures
        step_views(r@) == writer_steps(options@, dest@, entry@, exists, parent_exists, changed),
{
    let path = join_path(dest, entry.name.as_slice());
    if options.append() || options.append_verify() {
        let mut steps = ensure_parent_impl(path.as_slice(), parent_exists);
        let ghost had = step_views(steps@);
        let ghost w = must(
            FsActionView::Write { path: path@, mode: None, method: WriteMethod::Append },
        );
        push_step(
            &mut steps,
            FsAction::Write { path, mode: None, method: WriteMethod::Append },
            true,
        );
        assert(step_views(steps@) =~= had + seq![w]);
        return steps;
    }
    let mut steps = backup_impl(dest, path.as_slice(), options, backup_dir, exists);
    let ghost had = step_views(steps@);
    let mode = mode_for_file(entry, options, changed);
    if options.inplace() {
        push_step(
            &mut steps,
            FsAction::Write { path, mode, method: WriteMethod::InPlace },
            true,
        );
    } else {
        match options.partial_dir() {
            Some(d) => {
                push_step(
                    &mut steps,
                    FsAction::MakeDir { path: copy_bytes(d.as_slice()), mode: 0o755 },
                    true,
                );
                let target = partial_file(
                    d.as_slice(),
                    entry.name.as_slice(),
                    "partial".as_bytes(),
                );
                push_step(
                    &mut steps,
                    FsAction::Write { path: target, mode, method: WriteMethod::Streaming },
                    true,
                );
            },
            None => {
                push_step(
                    &mut steps,
                    FsAction::Write { path, mode, method: WriteMethod::Streaming },
                    true,
                );
            },
        }
    }
    assert(step_views(steps@) =~= writer_steps(
        options@,
        dest@,
        entry@,
        exists,
        parent_exists,
        changed,
    ));
    steps
}

fn finish_file_impl(
    dest: &[u8],
    entry: &FileEntry,
    source: Option<&[u8]>,
    options: &TransferOptions,
) -> (r: Vec<Step>)
    ensures
        step_views(r@) == finish_steps(
            options@,
            dest@,
            entry@,
            match source {
                Some(s) => Some(s@),
                None => None,
            },
        ),
{
    let path = join_path(dest, entry.name.as_slice());
    let mut steps = no_steps();
    match options.partial_dir() {
        Some(d) => {
            let from = partial_file(d.as_slice(), path.as_slice(), "partial".as_bytes());
            if !paths_equal(from.as_slice(), path.as_slice()) {
                push_step(
                    &mut steps,
                    FsAction::Rename { from, to: copy_bytes(path.as_slice()) },
                    true,
                );
            }
        },
        None => {},
    }
    let ghost moved = step_views(steps@);
    proof {
        let want = match options@.paths.partial_dir {
            Some(d) => {
                let from = partial_path(d, path@, partial_name());
                if !same_path(from, path@) {
                    seq![must(FsActionView::Rename { from, to: path@ })]
                } else {
                    Seq::empty()
                }
            },
            None => Seq::empty(),
        };
        assert(moved =~= want);
    }
    let meta = set_file_metadata(path.as_slice(), entry, options);
    push_steps(&mut steps, meta);
    push_source_removal(&mut steps, options, source);
    steps
}

fn has_entry(entries: &[FileEntry], name: &[u8]) -> (r: bool)
    ensures
        r == crate::engine::delete::names_of(entry_views(entries@)).contains(name@),
{
    let ghost names = crate::engine::delete::names_of(entry_views(entries@));
    let mut i: usize = 0;
    while i < entries.len()
        invariant
            i <= entries.len(),
            names == crate::engine::delete::names_of(entry_views(entries@)),
            forall|j: int| 0 <= j < i ==> names[j] != name@,
        decreases entries.len() - i,
    {
        if same_bytes(entries[i].name.as_slice(), name) {
            assert(names[i as int] == name@);
            return true;
        }
        i = i + 1;
    }
    false
}

/// The hard links that deferred entries become. Each deferred entry is given by
/// its name and the name of its source.
pub fn create_deferred_hardlinks_impl(
    dest: &[u8],
    deferred: &[(Vec<u8>, Vec<u8>)],
    all_entries: &[FileEntry],
) -> (r: Vec<DeferredLink>)
    ensures
        link_views(r@) == deferred_links(
            dest@,
            deferred_views(deferred@),
            crate::engine::delete::names_of(entry_views(all_entries@)),
        ),
{
    let ghost names = crate::engine::delete::names_of(entry_views(all_entries@));
    let ghost all = deferred_views(deferred@);
    let mut out: Vec<DeferredLink> = Vec::new();
    let mut i: usize = 0;
    assert(link_views(out@) =~= deferred_links(dest@, all.take(0), names));
    while i < deferred.len()
        invariant
            i <= deferred.len(),
            all == deferred_views(deferred@),
            names == crate::engine::delete::names_of(entry_views(all_entries@)),
            link_views(out@) == deferred_links(dest@, all.take(i as int), names),
        decreases deferred.len() - i,
    {
        let dup = deferred[i].0.as_slice();
        let source = deferred[i].1.as_slice();
        let ghost had = link_views(out@);
        proof {
            assert(all.take(i + 1).drop_last() =~= all.take(i as int));
            assert(all.take(i + 1).last() == (dup@, source@));
        }
        if has_entry(all_entries, source) {
            let link = DeferredLink { from: join_path(dest, source), to: join_path(dest, dup) };
            let ghost lv = (link.from@, link.to@);
            out.push(link);
            assert(link_views(out@) =~= had.push(lv));
        }
        i = i + 1;
    }
    assert(all.take(i as int) =~= all);
    out
}

fn deferred_link_steps_impl(link: &DeferredLink, options: &TransferOptions) -> (r: Vec<Step>)
    ensures
        step_views(r@) == deferred_steps(options@, link.from@, link.to@),
{
    if options.dry_run() {
        let none: Vec<Step> = Vec::new();
        assert(step_views(none@) =~= Seq::empty());
        return none;
    }
    make_link_steps(copy_bytes(link.from.as_slice()), copy_bytes(link.to.as_slice()))
}

fn make_link_steps(from: Vec<u8>, to: Vec<u8>) -> (r: Vec<Step>)
    ensures
        step_views(r@) == link_steps(from@, to@),
{
    let ghost want = link_steps(from@, to@);
    let mut steps: Vec<Step> = Vec::new();
    push_step(&mut steps, FsAction::RemoveFile { path: copy_bytes(to.as_slice()) }, false);
    push_step(&mut steps, FsAction::HardLink { from, to }, true);
    assert(step_views(steps@) =~= want);
    steps
}

/// Counts the links whose steps succeeded.
pub fn count_links(made: &[bool]) -> (r: u64)
    ensures
        r == links_created(made@),
        r <= made.len(),
{
    let mut count: u64 = 0;
    let mut i: usize = 0;
    assert(made@.take(0).filter(|m: bool| m) =~= Seq::empty()) by {
        reveal(Seq::filter);
    }
    while i < made.len()
        invariant
            i <= made.len(),
            count <= i,
            count == links_created(made@.take(i as int)),
        decreases made.len() - i,
    {
        proof {
            let t = made@.take(i + 1);
            assert(t.drop_last() =~= made@.take(i as int));
            assert(t.last() == made@[i as int]);
            reveal(Seq::filter);
        }
        if made[i] {
            count = count + 1;
        }
        i = i + 1;
    }
    assert(made@.take(i as int) =~= made@);
    count
}

// ---------------------------------------------------------------------------
// Engines
// ---------------------------------------------------------------------------

/// The destination side of a transfer.
#[derive(Debug)]
pub struct ReceiverEngine {
    dest: Vec<u8>,
    options: TransferConfig,
    resolved_link_dests: Vec<Vec<u8>>,
    resolved_backup_dir: Option<Vec<u8>>,
}

/// The destination side of a transfer, with borrowed options.
#[derive(Debug)]
pub struct ReceiverRef<'a> {
    dest: &'a [u8],
    options: &'a TransferConfig,
    resolved_link_dests: Vec<Vec<u8>>,
    resolved_backup_dir: Option<Vec<u8>>,
}

fn resolve_backup(dest: &[u8], options: &TransferOptions) -> (r: Option<Vec<u8>>)
    ensures
        opt_bytes(r) == backup_target(options@, dest@),
{
    match options.backup_dir() {
        Some(d) => Some(resolve_dir(dest, d.as_slice())),
        None => None,
    }
}

fn resolve_links(dest: &[u8], options: &TransferOptions) -> (r: Vec<Vec<u8>>)
    ensures
        path_views(r@) == resolved_dirs(dest@, options@.paths.link_dest),
{
    let r = resolve_link_dest_dirs(options.link_dest(), dest);
    assert(path_views(r@) =~= resolved_dirs(dest@, options@.paths.link_dest));
    r
}

fn borrowed(o: &Option<Vec<u8>>) -> (r: Option<&[u8]>)
    ensures
        (match r {
            Some(d) => Some(d@),
            None => None,
        }) == opt_bytes(*o),
{
    match o {
        Some(d) => Some(d.as_slice()),
        None => None,
    }
}

impl ReceiverEngine {
    /// The options that the decisions follow.
    pub closed spec fn opts(&self) -> OptionsView {
        self.options@
    }

    /// The directory that receives the files.
    pub closed spec fn root(&self) -> Seq<u8> {
        self.dest@
    }

    /// The resolved directories are those of the options.
    pub closed spec fn wf(&self) -> bool {
        &&& path_views(self.resolved_link_dests@) == resolved_dirs(
            self.dest@,
            self.options@.paths.link_dest,
        )
        &&& opt_bytes(self.resolved_backup_dir) == backup_target(self.options@, self.dest@)
    }

    /// Create a new receiver engine. Resolves `--link-dest` directories and the
    /// `--backup-dir` path upfront.
    pub fn new(dest: Vec<u8>, options: TransferConfig) -> (r: ReceiverEngine)
        ensures
            r.wf(),
            r.opts() == options@,
            r.root() == dest@,
    {
        let resolved_link_dests = resolve_links(dest.as_slice(), &options);
        let resolved_backup_dir = resolve_backup(dest.as_slice(), &options);
        ReceiverEngine { dest, options, resolved_link_dests, resolved_backup_dir }
    }

    /// Resolved backup directory (relative paths joined to dest).
    pub fn backup_dir(&self) -> (r: Option<&[u8]>)
        requires
            self.wf(),
        ensures
            (match r {
                Some(d) => Some(d@),
                None => None,
            }) == backup_target(self.opts(), self.root()),
    {
        borrowed(&self.resolved_backup_dir)
    }

    /// Resolve the destination path for an entry.
    pub fn dest_path(&self, entry: &FileEntry) -> (r: Vec<u8>)
        ensures
            r@ == joined(self.root(), entry@.name),
    {
        join_path(self.dest.as_slice(), entry.name.as_slice())
    }

    /// Check if a file should be skipped based on all skip criteria.
    pub fn should_skip_file(&self, entry: &FileEntry, probe: &DestProbe) -> (r: bool)
        requires
            probe.fits(self.opts()),
        ensures
            r == skips(self.opts(), entry@, *probe),
    {
        should_skip_impl(entry, probe, &self.options)
    }

    /// The steps that satisfy a file by a hard link from a `--link-dest`
    /// directory, where one holds it.
    pub fn try_link_dest(&self, entry: &FileEntry, probe: &DestProbe) -> (r: Option<Vec<Step>>)
        requires
            self.wf(),
            probe.fits(self.opts()),
        ensures
            match r {
                None => link_source(self.opts(), self.root(), entry@, *probe) is None,
                Some(s) => link_source(self.opts(), self.root(), entry@, *probe) is Some
                    && step_views(s@) == link_steps(
                    link_source(self.opts(), self.root(), entry@, *probe)->0,
                    joined(self.root(), entry@.name),
                ),
            },
    {
        try_link_dest_impl(self.dest.as_slice(), entry, probe, &self.resolved_link_dests, &self.options)
    }

    /// The steps that satisfy a file by a copy from a `--copy-dest` directory,
    /// where one holds it.
    pub fn try_copy_dest(&self, entry: &FileEntry, probe: &DestProbe) -> (r: Option<Vec<Step>>)
        requires
            probe.fits(self.opts()),
        ensures
            match r {
                None => copy_source(self.opts(), entry@, *probe) is None,
                Some(s) => copy_source(self.opts(), entry@, *probe) is Some && step_views(s@)
                    == copy_steps(
                    copy_source(self.opts(), entry@, *probe)->0,
                    joined(self.root(), entry@.name),
                ),
            },
    {
        try_copy_dest_impl(self.dest.as_slice(), entry, probe, &self.options)
    }

    /// The steps that write reconstructed file data with all options.
    pub fn receive_file(
        &self,
        entry: &FileEntry,
        dest_exists: bool,
        data_len: usize,
        source_path: Option<&[u8]>,
        changed: Option<u32>,
    ) -> (r: Vec<Step>)
        requires
            self.wf(),
        ensures
            step_views(r@) == receive_steps(
                self.opts(),
                self.root(),
                entry@,
                dest_exists,
                data_len,
                match source_path {
                    Some(s) => Some(s@),
                    None => None,
                },
                changed,
            ),
    {
        receive_file_impl(
            self.dest.as_slice(),
            entry,
            dest_exists,
            data_len,
            source_path,
            &self.options,
            borrowed(&self.resolved_backup_dir),
            changed,
        )
    }

    /// The steps that open a destination file for streaming.
    pub fn create_writer(
        &self,
        entry: &FileEntry,
        dest_exists: bool,
        parent_exists: bool,
        changed: Option<u32>,
    ) -> (r: Vec<Step>)
        requires
            self.wf(),
        ensures
            step_views(r@) == writer_steps(
                self.opts(),
                self.root(),
                entry@,
                dest_exists,
                parent_exists,
                changed,
            ),
    {
        create_writer_impl(
            self.dest.as_slice(),
            entry,
            dest_exists,
            parent_exists,
            &self.options,
            borrowed(&self.resolved_backup_dir),
            changed,
        )
    }

    /// The steps that finish a file after a streaming write.
    pub fn finish_file(&self, entry: &FileEntry, source_path: Option<&[u8]>) -> (r: Vec<Step>)
        ensures
            step_views(r@) == finish_steps(
                self.opts(),
                self.root(),
                entry@,
                match source_path {
                    Some(s) => Some(s@),
                    None => None,
                },
            ),
    {
        finish_file_impl(self.dest.as_slice(), entry, source_path, &self.options)
    }

    /// The permissions of an entry that the chmod options change.
    pub fn mode_to_change(&self, entry: &FileEntry) -> (r: u32)
        ensures
            r == mode_to_change(self.opts(), entry@),
    {
        if entry.is_dir() && !self.options.preserve_perms() {
            0o755
        } else {
            entry.mode & 0o7777
        }
    }

    /// Access the transfer configuration.
    pub fn options(&self) -> (r: &TransferConfig)
        ensures
            r@ == self.opts(),
    {
        &self.options
    }

    /// Access the destination path.
    pub fn dest(&self) -> (r: &[u8])
        ensures
            r@ == self.root(),
    {
        self.dest.as_slice()
    }

    /// Returns true if the buffered receive path should be used instead of
    /// streaming: sparse files are written from the full data.
    pub fn needs_buffered_receive(&self) -> (r: bool)
        ensures
            r == self.opts().behavior.sparse,
    {
        self.options.sparse()
    }

    /// The steps that create a destination directory with all options.
    pub fn create_directory(
        &self,
        entry: &FileEntry,
        probe: &DestProbe,
        changed: Option<u32>,
    ) -> (r: Vec<Step>)
        ensures
            step_views(r@) == directory_steps(self.opts(), self.root(), entry@, *probe, changed),
    {
        create_directory_impl(self.dest.as_slice(), entry, probe, &self.options, changed)
    }

    /// The steps that create a symlink, unless its target is unsafe and
    /// `--safe-links` is in effect.
    pub fn create_symlink(&self, entry: &FileEntry) -> (r: Option<Vec<Step>>)
        ensures
            match r {
                None => refuses_link(self.opts(), entry@),
                Some(s) => !refuses_link(self.opts(), entry@) && step_views(s@) == symlink_steps(
                    self.opts(),
                    self.root(),
                    entry@,
                ),
            },
    {
        create_symlink_impl(self.dest.as_slice(), entry, &self.options)
    }

    /// The steps that create parent directories for a file entry if needed.
    pub fn ensure_parent(&self, entry: &FileEntry, parent_exists: bool) -> (r: Vec<Step>)
        ensures
            step_views(r@) == parent_steps(joined(self.root(), entry@.name), parent_exists),
    {
        let path = join_path(self.dest.as_slice(), entry.name.as_slice());
        ensure_parent_impl(path.as_slice(), parent_exists)
    }

    /// Dispatch a single entry through the full decision pipeline.
    ///
    /// 1. Directory: made
    /// 2. Symlink: made, or skipped where it is unsafe
    /// 3. Non-regular file: skipped
    /// 4. Hardlink duplicate: deferred
    /// 5. Skip checks: skipped
    /// 6. Link-dest
    /// 7. Copy-dest
    /// 8. Dry-run
    /// 9. In need of a transfer
    pub fn dispatch_entry(
        &self,
        entry: &FileEntry,
        probe: &DestProbe,
        tried: Attempts,
        changed: Option<u32>,
    ) -> (r: EntryAction)
        requires
            self.wf(),
            probe.fits(self.opts()),
        ensures
            r@ == dispatched(self.opts(), self.root(), entry@, *probe, tried, changed),
    {
        dispatch_entry_impl(
            self.dest.as_slice(),
            entry,
            probe,
            tried,
            &self.resolved_link_dests,
            &self.options,
            changed,
        )
    }

    /// The steps that apply a completed data transfer.
    pub fn apply_transfer(
        &self,
        entry: &FileEntry,
        dest_exists: bool,
        data_len: usize,
        source_path: Option<&[u8]>,
        changed: Option<u32>,
    ) -> (r: Vec<Step>)
        requires
            self.wf(),
        ensures
            step_views(r@) == receive_steps(
                self.opts(),
                self.root(),
                entry@,
                dest_exists,
                data_len,
                match source_path {
                    Some(s) => Some(s@),
                    None => None,
                },
                changed,
            ),
    {
        self.receive_file(entry, dest_exists, data_len, source_path, changed)
    }

    /// The hard links that deferred entries become.
    pub fn create_deferred_hardlinks(
        &self,
        deferred: &[(Vec<u8>, Vec<u8>)],
        all_entries: &[FileEntry],
    ) -> (r: Vec<DeferredLink>)
        ensures
            link_views(r@) == deferred_links(
                self.root(),
                deferred_views(deferred@),
                crate::engine::delete::names_of(entry_views(all_entries@)),
            ),
    {
        create_deferred_hardlinks_impl(self.dest.as_slice(), deferred, all_entries)
    }

    /// The steps that make a deferred link.
    pub fn deferred_link_steps(&self, link: &DeferredLink) -> (r: Vec<Step>)
        ensures
            step_views(r@) == deferred_steps(self.opts(), link.from@, link.to@),
    {
        deferred_link_steps_impl(link, &self.options)
    }
}

impl<'a> ReceiverRef<'a> {
    /// The options that the decisions follow.
    pub closed spec fn opts(&self) -> OptionsView {
        self.options@
    }

    /// The directory that receives the files.
    pub closed spec fn root(&self) -> Seq<u8> {
        self.dest@
    }

    /// The resolved directories are those of the options.
    pub closed spec fn wf(&self) -> bool {
        &&& path_views(self.resolved_link_dests@) == resolved_dirs(
            self.dest@,
            self.options@.paths.link_dest,
        )
        &&& opt_bytes(self.resolved_backup_dir) == backup_target(self.options@, self.dest@)
    }

    /// Create a receiver from references.
    pub fn new(dest: &'a [u8], options: &'a TransferConfig) -> (r: ReceiverRef<'a>)
        ensures
            r.wf(),
            r.opts() == options@,
            r.root() == dest@,
    {
        let resolved_link_dests = resolve_links(dest, options);
        let resolved_backup_dir = resolve_backup(dest, options);
        ReceiverRef { dest, options, resolved_link_dests, resolved_backup_dir }
    }

    /// Resolved backup directory (relative paths joined to dest).
    pub fn backup_dir(&self) -> (r: Option<&[u8]>)
        requires
            self.wf(),
        ensures
            (match r {
                Some(d) => Some(d@),
                None => None,
            }) == backup_target(self.opts(), self.root()),
    {
        borrowed(&self.resolved_backup_dir)
    }

    /// Resolve the destination path for an entry.
    pub fn dest_path(&self, entry: &FileEntry) -> (r: Vec<u8>)
        ensures
            r@ == joined(self.root(), entry@.name),
    {
        join_path(self.dest, entry.name.as_slice())
    }

    /// Check if a file should be skipped based on all skip criteria.
    pub fn should_skip_file(&self, entry: &FileEntry, probe: &DestProbe) -> (r: bool)
        requires
            probe.fits(self.opts()),
        ensures
            r == skips(self.opts(), entry@, *probe),
    {
        should_skip_impl(entry, probe, self.options)
    }

    /// The steps that satisfy a file by a hard link from a `--link-dest`
    /// directory, where one holds it.
    pub fn try_link_dest(&self, entry: &FileEntry, probe: &DestProbe) -> (r: Option<Vec<Step>>)
        requires
            self.wf(),
            probe.fits(self.opts()),
        ensures
            match r {
                None => link_source(self.opts(), self.root(), entry@, *probe) is None,
                Some(s) => link_source(self.opts(), self.root(), entry@, *probe) is Some
                    && step_views(s@) == link_steps(
                    link_source(self.opts(), self.root(), entry@, *probe)->0,
                    joined(self.root(), entry@.name),
                ),
            },
    {
        try_link_dest_impl(self.dest, entry, probe, &self.resolved_link_dests, self.options)
    }

    /// The steps that satisfy a file by a copy from a `--copy-dest` directory,
    /// where one holds it.
    pub fn try_copy_dest(&self, entry: &FileEntry, probe: &DestProbe) -> (r: Option<Vec<Step>>)
        requires
            probe.fits(self.opts()),
        ensures
            match r {
                None => copy_source(self.opts(), entry@, *probe) is None,
                Some(s) => copy_source(self.opts(), entry@, *probe) is Some && step_views(s@)
                    == copy_steps(
                    copy_source(self.opts(), entry@, *probe)->0,
                    joined(self.root(), entry@.name),
                ),
            },
    {
        try_copy_dest_impl(self.dest, entry, probe, self.options)
    }

    /// The steps that write reconstructed file data with all options.
    pub fn receive_file(
        &self,
        entry: &FileEntry,
        dest_exists: bool,
        data_len: usize,
        source_path: Option<&[u8]>,
        changed: Option<u32>,
    ) -> (r: Vec<Step>)
        requires
            self.wf(),
        ensures
            step_views(r@) == receive_steps(
                self.opts(),
                self.root(),
                entry@,
                dest_exists,
                data_len,
                match source_path {
                    Some(s) => Some(s@),
                    None => None,
                },
                changed,
            ),
    {
        receive_file_impl(
            self.dest,
            entry,
            dest_exists,
            data_len,
            source_path,
            self.options,
            borrowed(&self.resolved_backup_dir),
            changed,
        )
    }

    /// The steps that create a destination directory with all options.
    pub fn create_directory(
        &self,
        entry: &FileEntry,
        probe: &DestProbe,
        changed: Option<u32>,
    ) -> (r: Vec<Step>)
        ensures
            step_views(r@) == directory_steps(self.opts(), self.root(), entry@, *probe, changed),
    {
        create_directory_impl(self.dest, entry, probe, self.options, changed)
    }

    /// The steps that create a symlink, unless its target is unsafe and
    /// `--safe-links` is in effect.
    pub fn create_symlink(&self, entry: &FileEntry) -> (r: Option<Vec<Step>>)
        ensures
            match r {
                None => refuses_link(self.opts(), entry@),
                Some(s) => !refuses_link(self.opts(), entry@) && step_views(s@) == symlink_steps(
                    self.opts(),
                    self.root(),
                    entry@,
                ),
            },
    {
        create_symlink_impl(self.dest, entry, self.options)
    }

    /// The steps that create parent directories for a file entry if needed.
    pub fn ensure_parent(&self, entry: &FileEntry, parent_exists: bool) -> (r: Vec<Step>)
        ensures
            step_views(r@) == parent_steps(joined(self.root(), entry@.name), parent_exists),
    {
        let path = join_path(self.dest, entry.name.as_slice());
        ensure_parent_impl(path.as_slice(), parent_exists)
    }

    /// Dispatch a single entry through the full decision pipeline.
    ///
    /// 1. Directory: made
    /// 2. Symlink: made, or skipped where it is unsafe
    /// 3. Non-regular file: skipped
    /// 4. Hardlink duplicate: deferred
    /// 5. Skip checks: skipped
    /// 6. Link-dest
    /// 7. Copy-dest
    /// 8. Dry-run
    /// 9. In need of a transfer
    pub fn dispatch_entry(
        &self,
        entry: &FileEntry,
        probe: &DestProbe,
        tried: Attempts,
        changed: Option<u32>,
    ) -> (r: EntryAction)
        requires
            self.wf(),
            probe.fits(self.opts()),
        ensures
            r@ == dispatched(self.opts(), self.root(), entry@, *probe, tried, changed),
    {
        dispatch_entry_impl(
            self.dest,
            entry,
            probe,
            tried,
            &self.resolved_link_dests,
            self.options,
            changed,
        )
    }

    /// The steps that apply a completed data transfer.
    pub fn apply_transfer(
        &self,
        entry: &FileEntry,
        dest_exists: bool,
        data_len: usize,
        source_path: Option<&[u8]>,
        changed: Option<u32>,
    ) -> (r: Vec<Step>)
        requires
            self.wf(),
        ensures
            step_views(r@) == receive_steps(
                self.opts(),
                self.root(),
                entry@,
                dest_exists,
                data_len,
                match source_path {
                    Some(s) => Some(s@),
                    None => None,
                },
                changed,
            ),
    {
        self.receive_file(entry, dest_exists, data_len, source_path, changed)
    }

    /// The hard links that deferred entries become.
    pub fn create_deferred_hardlinks(
        &self,
        deferred: &[(Vec<u8>, Vec<u8>)],
        all_entries: &[FileEntry],
    ) -> (r: Vec<DeferredLink>)
        ensures
            link_views(r@) == deferred_links(
                self.root(),
                deferred_views(deferred@),
                crate::engine::delete::names_of(entry_views(all_entries@)),
            ),
    {
        create_deferred_hardlinks_impl(self.dest, deferred, all_entries)
    }

    /// The steps that make a deferred link.
    pub fn deferred_link_steps(&self, link: &DeferredLink) -> (r: Vec<Step>)
        ensures
            step_views(r@) == deferred_steps(self.opts(), link.from@, link.to@),
    {
        deferred_link_steps_impl(link, self.options)
    }
}

// ---------------------------------------------------------------------------
// Laws
// ---------------------------------------------------------------------------

/// A dry run takes no step, whatever the entry is.
pub proof fn dry_run_takes_no_step(
    o: OptionsView,
    dest: Seq<u8>,
    e: EntryView,
    p: DestProbe,
    tried: Attempts,
    changed: Option<u32>,
)
    requires
        o.output.dry_run,
    ensures
        ({
            let a = dispatched(o, dest, e, p, tried, changed);
            &&& !(a is TryLink) && !(a is TryCopy) && !(a is NeedsTransfer)
            &&& a is Handled ==> a->Handled_steps.len() == 0
        }),
{
}

/// Dispatching ends: once link and copy were tried, neither is tried again.
pub proof fn tried_once(
    o: OptionsView,
    dest: Seq<u8>,
    e: EntryView,
    p: DestProbe,
    tried: Attempts,
    changed: Option<u32>,
)
    ensures
        tried.link is Some ==> !(dispatched(o, dest, e, p, tried, changed) is TryLink),
        tried.copy is Some ==> !(dispatched(o, dest, e, p, tried, changed) is TryCopy),
{
}

// ---------------------------------------------------------------------------
// Another file as basis
// ---------------------------------------------------------------------------

/// The first listed file from a place on that has the size and the time of an
/// entry and can be read; their number where none does.
pub open spec fn first_exact(
    e: EntryView,
    l: Seq<DirEntryView>,
    readable: Seq<bool>,
    i: int,
) -> int
    decreases l.len() - i,
{
    if i >= l.len() || (exact_match(e, l[i]) && readable[i]) {
        i
    } else {
        first_exact(e, l, readable, i + 1)
    }
}

/// The directory in which another basis is looked for, and the name that it
/// should be like.
pub open spec fn fuzzy_place(o: OptionsView, dest: Seq<u8>, e: EntryView) -> Option<
    (Seq<u8>, Seq<u8>),
> {
    let path = joined(dest, e.name);
    match (parent_of(path), file_name_of(path)) {
        (Some(d), Some(n)) if o.behavior.fuzzy => Some((d, n)),
        _ => None,
    }
}

/// The file that serves as basis for one that is missing: the first in its
/// directory with the same size and time, else the one with the closest name.
pub open spec fn fuzzy_basis(
    o: OptionsView,
    dest: Seq<u8>,
    e: EntryView,
    l: Seq<DirEntryView>,
    readable: Seq<bool>,
) -> Option<Seq<u8>> {
    match fuzzy_place(o, dest, e) {
        None => None,
        Some((dir, target)) => {
            let i = first_exact(e, l, readable, 0);
            if i < l.len() {
                Some(joined(dir, l[i].name))
            } else {
                match closest(target, listed_names(l)) {
                    Some(k) if readable[k] => Some(joined(dir, l[k].name)),
                    _ => None,
                }
            }
        },
    }
}

impl ReceiverEngine {
    /// The directory in which another basis for an entry is looked for, where
    /// one is.
    pub fn fuzzy_dir(&self, entry: &FileEntry) -> (r: Option<Vec<u8>>)
        ensures
            match r {
                Some(d) => fuzzy_place(self.opts(), self.root(), entry@) matches Some((dir, _))
                    && dir == d@,
                None => fuzzy_place(self.opts(), self.root(), entry@) is None,
            },
    {
        if !self.options.fuzzy() {
            return None;
        }
        let path = self.dest_path(entry);
        match path_parent(path.as_slice()) {
            None => None,
            Some(d) => match path_file_name(path.as_slice()) {
                None => None,
                Some(_) => Some(d),
            },
        }
    }

    /// Find a fuzzy-match basis file when no exact basis exists.
    ///
    /// `listing` is what the directory holds, where it could be read, and
    /// `readable` says which of it can be read.
    pub fn find_fuzzy_basis(
        &self,
        entry: &FileEntry,
        listing: Option<&[DirEntry]>,
        readable: &[bool],
    ) -> (r: Option<Vec<u8>>)
        requires
            listing is Some ==> listing->0.len() == readable.len() && forall|i: int|
                0 <= i < listing->0.len() ==> (#[trigger] listing->0@[i]).name.len() < usize::MAX,
        ensures
            match listing {
                Some(l) => match r {
                    Some(p) => fuzzy_basis(
                        self.opts(),
                        self.root(),
                        entry@,
                        listing_views(l@),
                        readable@,
                    ) == Some(p@),
                    None => fuzzy_basis(
                        self.opts(),
                        self.root(),
                        entry@,
                        listing_views(l@),
                        readable@,
                    ) is None,
                },
                None => r is None,
            },
    {
        let dir = match self.fuzzy_dir(entry) {
            Some(d) => d,
            None => {
                return None;
            },
        };
        let l = match listing {
            Some(l) => l,
            None => {
                return None;
            },
        };
        let ghost lv = listing_views(l@);
        let mut i: usize = 0;
        while i < l.len()
            invariant
                i <= l.len(),
                lv == listing_views(l@),
                l.len() == readable.len(),
                fuzzy_place(self.opts(), self.root(), entry@) matches Some((d, _)) && d == dir@,
                listing == Some(l),
                first_exact(entry@, lv, readable@, 0) == first_exact(
                    entry@,
                    lv,
                    readable@,
                    i as int,
                ),
            decreases l.len() - i,
        {
            if l[i].metadata.len == entry.len && l[i].metadata.mtime == entry.mtime && readable[i] {
                return Some(join_path(dir.as_slice(), l[i].name.as_slice()));
            }
            i = i + 1;
        }
        let path = self.dest_path(entry);
        match path_file_name(path.as_slice()) {
            None => None,
            Some(target) => match closest_name(target.as_slice(), l) {
                None => None,
                Some(k) => {
                    proof {
                        closest_is_similar(target@, listed_names(lv));
                    }
                    if readable[k] {
                        Some(join_path(dir.as_slice(), l[k].name.as_slice()))
                    } else {
                        None
                    }
                },
            },
        }
    }
}

} // verus!

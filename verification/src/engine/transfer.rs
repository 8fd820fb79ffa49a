//! Transfers within one machine.
//!
//! A transfer goes over the file list of its sources and decides for each entry
//! what has to be done at the destination. The decisions are made here, from
//! what was found on disk; taking the steps and moving the data is left to the
//! caller, who hands back what came of it.

use vstd::prelude::*;
use vstd::utf8::encode_utf8;

use crate::engine::delete::{
    all_names, child_names, children_of, delete_unlisted, extraneous, listing_views, names_of,
    removals,
};
use crate::engine::file_decision::{
    backup_steps, check_size_limits, compute_itemized, create_backup, file_mode, itemized,
    mode_for_file, size_skips, write_file_with_options, write_method,
};
use crate::engine::progress::{
    after_events, ends_file, event_views, push_event, EventView, ProgressEvent, ProgressTracker,
    TrackerView,
};
use crate::engine::receiver_engine::{partial_path, Attempts};
use crate::error::{
    FerrosyncError, FilterErrorView, FsError, FsErrorView, IoErrorKind, IoFailure, IoFailureView,
};
use crate::filelist::entry::{
    copy_bytes, entry_views, file_name_of, file_type, path_file_name, EntryView, FileEntry, S_IFDIR,
    S_IFREG, WIRE_S_IFLNK,
};
use crate::filelist::scanner::{
    item_views, make_target_stages, number_items, numbered, target_stages, FileListItem, Source,
};
use crate::filelist::walk::{
    add_target, visit_views, visits, walk, with_target, Visit, VisitView, WalkOptions, WalkPlan,
};
use crate::filter::rule::{option_rules, passes, FilterRuleList, RuleView};
use crate::fs::metadata::{entry_for, is_directory, DirEntry, FileMetadata};
use crate::fs::plan::{
    may, must, push_step, step_views, FsAction, FsActionView, Step, StepView, WriteMethod,
};
use crate::options::{path_views, DeleteMode, OptionsView, TransferOptions};
use crate::path::{join_path, joined, paths_equal, same_path};
use crate::stats::TransferStats;
use crate::text::{decimal, decimal_string, from_chars, push_text};

verus! {

/// Result of a complete transfer operation.
#[derive(Debug)]
pub struct TransferResult {
    /// Transfer statistics.
    pub stats: TransferStats,
}

// ---------------------------------------------------------------------------
// The file list of the sources
// ---------------------------------------------------------------------------

/// What a walk over a source does: links are not followed, their targets are
/// recorded.
pub open spec fn local_plan(m: FileMetadata, one_file_system: bool) -> WalkPlan {
    WalkPlan {
        options: WalkOptions { copy_links: false, one_file_system, filter_merge_files: 0 },
        root_dev: if one_file_system {
            Some(m.dev)
        } else {
            None
        },
        top_enriched: true,
    }
}

/// The name of a source in the list: its last component.
pub open spec fn source_name(path: Seq<u8>) -> Seq<u8> {
    match file_name_of(path) {
        Some(n) => n,
        None => Seq::empty(),
    }
}

/// What one source adds to the list. Filter rules apply to the source itself;
/// a directory adds something only where the transfer is recursive.
pub open spec fn local_visits(
    s: Source,
    recursive: bool,
    rules: Seq<RuleView>,
    one_file_system: bool,
) -> Result<Seq<VisitView>, FsErrorView> {
    match s.found {
        Err(e) => Err(e@),
        Ok(node) => {
            let name = source_name(s.path@);
            if !passes(rules, name, is_directory(node.meta)) {
                Ok(Seq::empty())
            } else if is_directory(node.meta) {
                if recursive {
                    visits(
                        node,
                        Seq::empty(),
                        rules,
                        local_plan(node.meta, one_file_system),
                        true,
                        target_stages(true),
                    )
                } else {
                    Ok(Seq::empty())
                }
            } else {
                Ok(
                    seq![
                        VisitView {
                            entry: with_target(entry_for(node.meta, name), node, true),
                            path: s.path@,
                        },
                    ],
                )
            }
        },
    }
}

/// What the first sources add to the list.
pub open spec fn all_local_visits(
    sources: Seq<Source>,
    n: nat,
    recursive: bool,
    rules: Seq<RuleView>,
    one_file_system: bool,
) -> Result<Seq<VisitView>, FsErrorView>
    decreases n,
{
    if n == 0 {
        Ok(Seq::empty())
    } else {
        match all_local_visits(sources, (n - 1) as nat, recursive, rules, one_file_system) {
            Err(e) => Err(e),
            Ok(before) => match local_visits(sources[n - 1], recursive, rules, one_file_system) {
                Err(e) => Err(e),
                Ok(more) => Ok(before + more),
            },
        }
    }
}

proof fn local_error_stays(
    sources: Seq<Source>,
    n: nat,
    m: nat,
    recursive: bool,
    rules: Seq<RuleView>,
    one_file_system: bool,
)
    requires
        n <= m,
        all_local_visits(sources, n, recursive, rules, one_file_system) is Err,
    ensures
        all_local_visits(sources, m, recursive, rules, one_file_system) == all_local_visits(
            sources,
            n,
            recursive,
            rules,
            one_file_system,
        ),
    decreases m,
{
    if n < m {
        local_error_stays(sources, n, (m - 1) as nat, recursive, rules, one_file_system);
    }
}

fn visit_local(
    source: &Source,
    out: &mut Vec<Visit>,
    recursive: bool,
    filters: &mut FilterRuleList,
    one_file_system: bool,
) -> (r: Result<(), FsError>)
    ensures
        crate::filelist::walk::walked(
            visit_views(old(out)@),
            visit_views(final(out)@),
            local_visits(*source, recursive, old(filters)@.rules, one_file_system),
            r,
        ),
        final(filters)@ == old(filters)@,
{
    let ghost before = visit_views(out@);
    assert(before + Seq::<VisitView>::empty() =~= before);
    let node = match &source.found {
        Ok(n) => n,
        Err(e) => {
            return Err(e.clone());
        },
    };
    let name: Vec<u8> = match path_file_name(source.path.as_slice()) {
        Some(n) => n,
        None => Vec::new(),
    };
    assert(name@ =~= source_name(source.path@));
    let is_dir = node.meta.is_dir();
    if !filters.is_included(name.as_slice(), is_dir) {
        return Ok(());
    }
    if is_dir {
        if !recursive {
            return Ok(());
        }
        let plan = WalkPlan {
            options: WalkOptions { copy_links: false, one_file_system, filter_merge_files: 0 },
            root_dev: if one_file_system {
                Some(node.meta.dev)
            } else {
                None
            },
            top_enriched: true,
        };
        let none: Vec<u8> = Vec::new();
        assert(none@ =~= Seq::empty());
        let stages = make_target_stages(true);
        return walk(node, none.as_slice(), out, filters, plan, true, stages.as_slice());
    }
    let mut entry = node.meta.to_file_entry(name);
    add_target(&mut entry, node, true);
    let visit = Visit { entry, path: copy_bytes(source.path.as_slice()) };
    let ghost vv = visit@;
    out.push(visit);
    assert(visit_views(out@) =~= before + seq![vv]);
    Ok(())
}

/// Builds the file list of one or more sources.
pub fn build_file_list(
    sources: &[Source],
    recursive: bool,
    filters: &mut FilterRuleList,
    one_file_system: bool,
) -> (r: Result<Vec<FileListItem>, FsError>)
    ensures
        match r {
            Ok(items) => {
                let v = all_local_visits(
                    sources@,
                    sources@.len(),
                    recursive,
                    old(filters)@.rules,
                    one_file_system,
                );
                v is Ok && item_views(items@) == numbered(v->Ok_0)
            },
            Err(e) => all_local_visits(
                sources@,
                sources@.len(),
                recursive,
                old(filters)@.rules,
                one_file_system,
            ) == Err::<Seq<VisitView>, FsErrorView>(e@),
        },
        final(filters)@ == old(filters)@,
{
    let ghost rules = filters@.rules;
    let mut out: Vec<Visit> = Vec::new();
    let mut i: usize = 0;
    assert(visit_views(out@) =~= Seq::empty());
    while i < sources.len()
        invariant
            i <= sources.len(),
            rules == old(filters)@.rules,
            filters@ == old(filters)@,
            all_local_visits(sources@, i as nat, recursive, rules, one_file_system) == Ok::<
                Seq<VisitView>,
                FsErrorView,
            >(visit_views(out@)),
        decreases sources.len() - i,
    {
        match visit_local(&sources[i], &mut out, recursive, filters, one_file_system) {
            Err(e) => {
                proof {
                    local_error_stays(
                        sources@,
                        (i + 1) as nat,
                        sources@.len(),
                        recursive,
                        rules,
                        one_file_system,
                    );
                }
                return Err(e);
            },
            Ok(_) => {},
        }
        i = i + 1;
    }
    Ok(number_items(out))
}

// ---------------------------------------------------------------------------
// What is decided about an entry
// ---------------------------------------------------------------------------

/// What was found for an entry.
#[derive(Debug)]
pub struct LocalProbe {
    /// The same name in each `--compare-dest` directory.
    pub compare: Vec<Option<FileMetadata>>,
    /// The same name in each `--link-dest` directory.
    pub link: Vec<Option<FileMetadata>>,
    /// The same name in each `--copy-dest` directory.
    pub copy: Vec<Option<FileMetadata>>,
    /// The destination.
    pub dest: Option<FileMetadata>,
    /// Whether the destination could be read and has the source's checksum.
    pub same_checksum: bool,
    /// How many bytes the source has.
    pub source_len: usize,
    /// How many bytes were read from the destination.
    pub basis_len: usize,
}

impl LocalProbe {
    /// There is one finding for each alternate directory.
    pub open spec fn fits(&self, o: OptionsView) -> bool {
        &&& self.compare@.len() == o.paths.compare_dest.len()
        &&& self.link@.len() == o.paths.link_dest.len()
        &&& self.copy@.len() == o.paths.copy_dest.len()
    }
}

/// How the data of a file is moved.
#[derive(Debug, Clone, Copy, PartialEq, Eq, Structural)]
pub enum DataMethod {
    /// As it is.
    Whole,
    /// As a delta to the destination.
    Delta,
    /// As a compressed delta to the destination.
    CompressedDelta,
}

/// What is done about an entry.
#[derive(Debug)]
pub enum LocalAction {
    /// Neither a directory, a link nor a file.
    Ignored,
    /// A directory is made.
    Directory { steps: Vec<Step> },
    /// A symbolic link is made.
    Symlink { steps: Vec<Step> },
    /// The file is left as it is.
    Skipped,
    /// A hard link is to be tried.
    TryLink { from: Vec<u8>, to: Vec<u8> },
    /// A copy is to be tried.
    TryCopy { from: Vec<u8>, to: Vec<u8> },
    /// A link or copy that was tried has done it.
    Linked,
    /// Nothing is done in a dry run.
    DryRun,
    /// The source's data from a place on goes behind the destination's.
    Append { from: usize, steps: Vec<Step> },
    /// The destination has as much as the source, and data is only appended.
    NothingToAppend,
    /// The file's data is moved.
    Transfer { method: DataMethod },
}

/// The view of a [`LocalAction`].
#[verifier::ext_equal]
pub enum LocalActionView {
    Ignored,
    Directory { steps: Seq<StepView> },
    Symlink { steps: Seq<StepView> },
    Skipped,
    TryLink { from: Seq<u8>, to: Seq<u8> },
    TryCopy { from: Seq<u8>, to: Seq<u8> },
    Linked,
    DryRun,
    Append { from: usize, steps: Seq<StepView> },
    NothingToAppend,
    Transfer { method: DataMethod },
}

impl View for LocalAction {
    type V = LocalActionView;

    open spec fn view(&self) -> LocalActionView {
        match *self {
            LocalAction::Ignored => LocalActionView::Ignored,
            LocalAction::Directory { steps } => LocalActionView::Directory {
                steps: step_views(steps@),
            },
            LocalAction::Symlink { steps } => LocalActionView::Symlink {
                steps: step_views(steps@),
            },
            LocalAction::Skipped => LocalActionView::Skipped,
            LocalAction::TryLink { from, to } => LocalActionView::TryLink {
                from: from@,
                to: to@,
            },
            LocalAction::TryCopy { from, to } => LocalActionView::TryCopy {
                from: from@,
                to: to@,
            },
            LocalAction::Linked => LocalActionView::Linked,
            LocalAction::DryRun => LocalActionView::DryRun,
            LocalAction::Append { from, steps } => LocalActionView::Append {
                from,
                steps: step_views(steps@),
            },
            LocalAction::NothingToAppend => LocalActionView::NothingToAppend,
            LocalAction::Transfer { method } => LocalActionView::Transfer { method },
        }
    }
}

/// The path of an entry at the destination. A name is bytes, which need not be
/// text.
pub open spec fn local_path(dest: Seq<u8>, e: EntryView) -> Seq<u8> {
    joined(dest, e.name)
}

/// A file that was found is the same by size and time.
pub open spec fn same_file_as(e: EntryView, m: Option<FileMetadata>) -> bool {
    match m {
        Some(m) => m.len == e.len && m.mtime == e.mtime,
        None => false,
    }
}

/// The first alternate directory that holds the same file; their number where
/// none does.
pub open spec fn first_same_file(e: EntryView, metas: Seq<Option<FileMetadata>>, from: int) -> int
    decreases metas.len() - from,
{
    if from >= metas.len() || same_file_as(e, metas[from]) {
        from
    } else {
        first_same_file(e, metas, from + 1)
    }
}

/// The path of the same file in an alternate directory.
pub open spec fn local_alt(
    e: EntryView,
    dirs: Seq<Seq<u8>>,
    metas: Seq<Option<FileMetadata>>,
) -> Option<Seq<u8>> {
    let i = first_same_file(e, metas, 0);
    if i < metas.len() {
        Some(joined(dirs[i], e.name))
    } else {
        None
    }
}

/// The destination is up to date: it has the same size and time, or it is newer
/// and newer files are left alone.
pub open spec fn up_to_date(o: OptionsView, e: EntryView, dest: Option<FileMetadata>) -> bool {
    match dest {
        Some(m) => (m.len == e.len && m.mtime == e.mtime) || (o.behavior.update && m.mtime
            > e.mtime),
        None => false,
    }
}

/// The step that makes a directory.
pub open spec fn local_dir_steps(o: OptionsView, dest: Seq<u8>, e: EntryView) -> Seq<StepView> {
    if o.output.dry_run {
        Seq::empty()
    } else {
        seq![
            must(
                FsActionView::MakeDir {
                    path: local_path(dest, e),
                    mode: if o.archive.preserve_perms {
                        e.mode & 0o7777
                    } else {
                        0o755
                    },
                },
            ),
        ]
    }
}

/// The step that makes a symbolic link.
pub open spec fn local_link_steps(o: OptionsView, dest: Seq<u8>, e: EntryView) -> Seq<StepView> {
    if o.output.dry_run || e.link_target.len() == 0 {
        Seq::empty()
    } else {
        seq![must(FsActionView::SymLink { target: e.link_target, path: local_path(dest, e) })]
    }
}

/// The file to link to, where there is one and links are made.
pub open spec fn local_link_source(o: OptionsView, e: EntryView, p: LocalProbe) -> Option<Seq<u8>> {
    if o.output.dry_run {
        None
    } else {
        local_alt(e, o.paths.link_dest, p.link@)
    }
}

/// The file to copy, where there is one and copies are made.
pub open spec fn local_copy_source(o: OptionsView, e: EntryView, p: LocalProbe) -> Option<Seq<u8>> {
    if o.output.dry_run {
        None
    } else {
        local_alt(e, o.paths.copy_dest, p.copy@)
    }
}

/// What is done about a file that has to be updated.
pub open spec fn local_update(
    o: OptionsView,
    dest: Seq<u8>,
    e: EntryView,
    p: LocalProbe,
) -> LocalActionView {
    if o.output.dry_run {
        LocalActionView::DryRun
    } else if o.behavior.append && p.basis_len > 0 {
        if p.source_len > p.basis_len {
            LocalActionView::Append {
                from: p.basis_len,
                steps: seq![
                    must(
                        FsActionView::Write {
                            path: local_path(dest, e),
                            mode: file_mode(o, e, None),
                            method: WriteMethod::Append,
                        },
                    ),
                ],
            }
        } else {
            LocalActionView::NothingToAppend
        }
    } else if o.behavior.whole_file || p.basis_len == 0 {
        LocalActionView::Transfer { method: DataMethod::Whole }
    } else if o.output.compress {
        LocalActionView::Transfer { method: DataMethod::CompressedDelta }
    } else {
        LocalActionView::Transfer { method: DataMethod::Delta }
    }
}

/// What is done about a regular file.
pub open spec fn local_file(
    o: OptionsView,
    dest: Seq<u8>,
    e: EntryView,
    p: LocalProbe,
    tried: Attempts,
) -> LocalActionView {
    let path = local_path(dest, e);
    let link = local_link_source(o, e, p);
    let copy = local_copy_source(o, e, p);
    if size_skips(o, e.len) || local_alt(e, o.paths.compare_dest, p.compare@) is Some {
        LocalActionView::Skipped
    } else if link is Some && tried.link is None {
        LocalActionView::TryLink { from: link->0, to: path }
    } else if link is Some && tried.link->0 {
        LocalActionView::Linked
    } else if copy is Some && tried.copy is None {
        LocalActionView::TryCopy { from: copy->0, to: path }
    } else if copy is Some && tried.copy->0 {
        LocalActionView::Linked
    } else if (if o.behavior.checksum_mode {
        p.same_checksum
    } else {
        up_to_date(o, e, p.dest)
    }) {
        LocalActionView::Skipped
    } else {
        local_update(o, dest, e, p)
    }
}

/// What is done about an entry.
pub open spec fn local_action(
    o: OptionsView,
    dest: Seq<u8>,
    e: EntryView,
    p: LocalProbe,
    tried: Attempts,
) -> LocalActionView {
    if file_type(e.mode) == S_IFDIR {
        LocalActionView::Directory { steps: local_dir_steps(o, dest, e) }
    } else if file_type(e.mode) == WIRE_S_IFLNK && o.archive.preserve_links {
        LocalActionView::Symlink { steps: local_link_steps(o, dest, e) }
    } else if file_type(e.mode) != S_IFREG {
        LocalActionView::Ignored
    } else {
        local_file(o, dest, e, p, tried)
    }
}

/// The events that announce the update of a file.
pub open spec fn start_events(
    o: OptionsView,
    index: i32,
    e: EntryView,
    dest: Option<FileMetadata>,
) -> Seq<EventView> {
    let start = EventView::FileStart { index, name: e.name, size: e.len };
    if o.output.itemize_changes {
        seq![
            EventView::FileItemized { index, name: e.name, changes: itemized(o, e, dest) },
            start,
        ]
    } else {
        seq![start]
    }
}

/// The event that ends the work on a file.
pub open spec fn complete_event(index: i32, e: EntryView, literal: u64, matched: u64) -> EventView {
    EventView::FileComplete { index, name: e.name, literal_bytes: literal, matched_bytes: matched }
}

/// The event that a file was left as it is.
pub open spec fn skipped_event(index: i32, e: EntryView) -> EventView {
    EventView::FileSkipped { index, name: e.name }
}

/// The events of an action.
pub open spec fn local_events(
    o: OptionsView,
    index: i32,
    e: EntryView,
    p: LocalProbe,
    action: LocalActionView,
) -> Seq<EventView> {
    let start = start_events(o, index, e, p.dest);
    match action {
        LocalActionView::Symlink { .. } => seq![complete_event(index, e, 0, 0)],
        LocalActionView::Skipped => seq![skipped_event(index, e)],
        LocalActionView::Linked => seq![complete_event(index, e, 0, e.len as u64)],
        LocalActionView::DryRun => start.push(complete_event(index, e, e.len as u64, 0)),
        LocalActionView::Append { from, .. } => start.push(
            complete_event(index, e, (p.source_len - from) as u64, from as u64),
        ),
        LocalActionView::NothingToAppend => start.push(skipped_event(index, e)),
        LocalActionView::Transfer { .. } => start,
        _ => Seq::empty(),
    }
}

/// What an action adds to the statistics.
pub open spec fn local_counts(e: EntryView, p: LocalProbe, action: LocalActionView) -> TransferStats {
    let zero = TransferStats::zero();
    match action {
        LocalActionView::Directory { .. } => TransferStats { directories_created: 1, ..zero },
        LocalActionView::Symlink { .. } => TransferStats { symlinks: 1, ..zero },
        LocalActionView::Skipped => TransferStats { files_skipped: 1, ..zero },
        LocalActionView::NothingToAppend => TransferStats { files_skipped: 1, ..zero },
        LocalActionView::Linked => TransferStats { files_transferred: 1, ..zero },
        LocalActionView::DryRun => TransferStats {
            files_transferred: 1,
            total_size: e.len as u64,
            ..zero
        },
        LocalActionView::Append { from, .. } => moved_counts(e, (p.source_len - from) as u64),
        _ => zero,
    }
}

/// What a file adds to the statistics whose data was moved.
pub open spec fn moved_counts(e: EntryView, literal: u64) -> TransferStats {
    TransferStats {
        files_transferred: 1,
        total_size: e.len as u64,
        literal_data: literal,
        bytes_sent: literal,
        ..TransferStats::zero()
    }
}

/// The steps that put moved data into place: backup, the partial directory, the
/// data, the move into place, times and owner.
pub open spec fn finish_steps(
    o: OptionsView,
    dest: Seq<u8>,
    e: EntryView,
    exists: bool,
    data_len: usize,
) -> Seq<StepView> {
    let path = local_path(dest, e);
    let target = match o.paths.partial_dir {
        Some(d) => partial_path(d, path, Seq::empty()),
        None => path,
    };
    (if o.behavior.backup && exists {
        backup_steps(path, o.texts.suffix, o.paths.backup_dir)
    } else {
        Seq::empty()
    }) + (match o.paths.partial_dir {
        Some(d) => seq![must(FsActionView::MakeDir { path: d, mode: 0o755 })],
        None => Seq::empty(),
    }) + seq![
        must(
            FsActionView::Write {
                path: target,
                mode: file_mode(o, e, None),
                method: write_method(o, data_len),
            },
        ),
    ] + (if !same_path(target, path) {
        seq![must(FsActionView::Rename { from: target, to: path })]
    } else {
        Seq::empty()
    }) + (if o.archive.preserve_times {
        seq![must(FsActionView::SetTimes { path, mtime: e.mtime, nsec: e.mtime_nsec })]
    } else {
        Seq::empty()
    }) + (if o.archive.preserve_owner {
        seq![may(FsActionView::SetOwner { path, uid: e.uid, gid: e.gid })]
    } else {
        Seq::empty()
    })
}

// ---------------------------------------------------------------------------
// Deciding
// ---------------------------------------------------------------------------

/// The path of an entry at the destination. A name is bytes, which need not be
/// text.
fn entry_path(dest: &[u8], entry: &FileEntry) -> (r: Vec<u8>)
    ensures
        r@ == local_path(dest@, entry@),
{
    join_path(dest, entry.name.as_slice())
}

/// Check if an identical file exists in any of the alternate destination dirs.
fn check_alt_dest(
    entry: &FileEntry,
    alt_dirs: &[Vec<u8>],
    metas: &Vec<Option<FileMetadata>>,
) -> (r: Option<Vec<u8>>)
    requires
        alt_dirs.len() == metas.len(),
    ensures
        match r {
            Some(p) => local_alt(entry@, path_views(alt_dirs@), metas@) == Some(p@),
            None => local_alt(entry@, path_views(alt_dirs@), metas@) is None,
        },
{
    let ghost e = entry@;
    let mut i: usize = 0;
    while i < alt_dirs.len()
        invariant
            i <= alt_dirs.len(),
            alt_dirs.len() == metas.len(),
            e == entry@,
            first_same_file(e, metas@, 0) == first_same_file(e, metas@, i as int),
        decreases alt_dirs.len() - i,
    {
        match metas[i] {
            Some(meta) => {
                if meta.len == entry.len && meta.mtime == entry.mtime {
                    return Some(join_path(alt_dirs[i].as_slice(), entry.name.as_slice()));
                }
            },
            None => {},
        }
        i = i + 1;
    }
    None
}

/// Check if a file should be skipped based on size and mtime comparison.
fn should_skip(dest: Option<FileMetadata>, entry: &FileEntry, options: &TransferOptions) -> (r: bool)
    ensures
        r == up_to_date(options@, entry@, dest),
{
    match dest {
        None => false,
        Some(m) => (m.len == entry.len && m.mtime == entry.mtime) || (options.update()
            && m.mtime > entry.mtime),
    }
}

fn decide_update(
    options: &TransferOptions,
    dest: &[u8],
    entry: &FileEntry,
    probe: &LocalProbe,
) -> (r: LocalAction)
    ensures
        r@ == local_update(options@, dest@, entry@, *probe),
{
    if options.dry_run() {
        return LocalAction::DryRun;
    }
    if options.append() && probe.basis_len > 0 {
        if probe.source_len <= probe.basis_len {
            return LocalAction::NothingToAppend;
        }
        let mut steps: Vec<Step> = Vec::new();
        assert(step_views(steps@) =~= Seq::empty());
        push_step(
            &mut steps,
            FsAction::Write {
                path: entry_path(dest, entry),
                mode: mode_for_file(entry, options, None),
                method: WriteMethod::Append,
            },
            true,
        );
        let r = LocalAction::Append { from: probe.basis_len, steps };
        assert(r@ =~~= local_update(options@, dest@, entry@, *probe));
        return r;
    }
    if options.whole_file() || probe.basis_len == 0 {
        LocalAction::Transfer { method: DataMethod::Whole }
    } else if options.compress() {
        LocalAction::Transfer { method: DataMethod::CompressedDelta }
    } else {
        LocalAction::Transfer { method: DataMethod::Delta }
    }
}

fn decide_file(
    options: &TransferOptions,
    dest: &[u8],
    entry: &FileEntry,
    probe: &LocalProbe,
    tried: Attempts,
) -> (r: LocalAction)
    requires
        probe.fits(options@),
    ensures
        r@ == local_file(options@, dest@, entry@, *probe, tried),
{
    if check_size_limits(entry, options) {
        return LocalAction::Skipped;
    }
    if check_alt_dest(entry, options.compare_dest(), &probe.compare).is_some() {
        return LocalAction::Skipped;
    }
    if !options.dry_run() {
        match check_alt_dest(entry, options.link_dest(), &probe.link) {
            Some(from) => match tried.link {
                None => {
                    return LocalAction::TryLink { from, to: entry_path(dest, entry) };
                },
                Some(ok) => {
                    if ok {
                        return LocalAction::Linked;
                    }
                },
            },
            None => {},
        }
        match check_alt_dest(entry, options.copy_dest(), &probe.copy) {
            Some(from) => match tried.copy {
                None => {
                    return LocalAction::TryCopy { from, to: entry_path(dest, entry) };
                },
                Some(ok) => {
                    if ok {
                        return LocalAction::Linked;
                    }
                },
            },
            None => {},
        }
    }
    let skip = if options.checksum_mode() {
        probe.same_checksum
    } else {
        should_skip(probe.dest, entry, options)
    };
    if skip {
        LocalAction::Skipped
    } else {
        decide_update(options, dest, entry, probe)
    }
}

/// Decides what is done about an entry, from what was found for it and from
/// what came of a link or copy that was tried.
pub fn decide_entry(
    options: &TransferOptions,
    dest: &[u8],
    entry: &FileEntry,
    probe: &LocalProbe,
    tried: Attempts,
) -> (r: LocalAction)
    requires
        probe.fits(options@),
    ensures
        r@ == local_action(options@, dest@, entry@, *probe, tried),
{
    if entry.is_dir() {
        let mut steps: Vec<Step> = Vec::new();
        assert(step_views(steps@) =~= Seq::empty());
        if !options.dry_run() {
            let mode: u32 = if options.preserve_perms() {
                entry.mode & 0o7777
            } else {
                0o755
            };
            push_step(
                &mut steps,
                FsAction::MakeDir { path: entry_path(dest, entry), mode },
                true,
            );
        }
        assert(step_views(steps@) =~= local_dir_steps(options@, dest@, entry@));
        return LocalAction::Directory { steps };
    }
    if entry.is_symlink() && options.preserve_links() {
        let mut steps: Vec<Step> = Vec::new();
        assert(step_views(steps@) =~= Seq::empty());
        if !options.dry_run() && entry.link_target.len() > 0 {
            push_step(
                &mut steps,
                FsAction::SymLink {
                    target: copy_bytes(entry.link_target.as_slice()),
                    path: entry_path(dest, entry),
                },
                true,
            );
        }
        assert(step_views(steps@) =~= local_link_steps(options@, dest@, entry@));
        return LocalAction::Symlink { steps };
    }
    if !entry.is_file() {
        return LocalAction::Ignored;
    }
    decide_file(options, dest, entry, probe, tried)
}

fn announce(
    options: &TransferOptions,
    index: i32,
    entry: &FileEntry,
    dest: Option<FileMetadata>,
) -> (r: Vec<ProgressEvent>)
    ensures
        event_views(r@) == start_events(options@, index, entry@, dest),
{
    let mut events: Vec<ProgressEvent> = Vec::new();
    assert(event_views(events@) =~= Seq::empty());
    if options.itemize_changes() {
        let changes = compute_itemized(entry, dest.as_ref(), options);
        push_event(
            &mut events,
            ProgressEvent::FileItemized { index, name: copy_bytes(entry.name.as_slice()), changes },
        );
    }
    push_event(
        &mut events,
        ProgressEvent::FileStart {
            index,
            name: copy_bytes(entry.name.as_slice()),
            size: entry.len,
        },
    );
    assert(event_views(events@) =~= start_events(options@, index, entry@, dest));
    events
}

fn completed(index: i32, entry: &FileEntry, literal: u64, matched: u64) -> (r: ProgressEvent)
    ensures
        r@ == complete_event(index, entry@, literal, matched),
{
    ProgressEvent::FileComplete {
        index,
        name: copy_bytes(entry.name.as_slice()),
        literal_bytes: literal,
        matched_bytes: matched,
    }
}

fn left_alone(index: i32, entry: &FileEntry) -> (r: ProgressEvent)
    ensures
        r@ == skipped_event(index, entry@),
{
    ProgressEvent::FileSkipped { index, name: copy_bytes(entry.name.as_slice()) }
}

/// The events of an action.
pub fn events_of(
    options: &TransferOptions,
    index: i32,
    entry: &FileEntry,
    probe: &LocalProbe,
    action: &LocalAction,
) -> (r: Vec<ProgressEvent>)
    requires
        action@ is Append ==> action@->Append_from <= probe.source_len,
    ensures
        event_views(r@) == local_events(options@, index, entry@, *probe, action@),
        r@.len() <= 3,
{
    let mut one: Vec<ProgressEvent> = Vec::new();
    assert(event_views(one@) =~= Seq::empty());
    match action {
        LocalAction::Symlink { .. } => {
            push_event(&mut one, completed(index, entry, 0, 0));
            assert(event_views(one@) =~= seq![complete_event(index, entry@, 0, 0)]);
            one
        },
        LocalAction::Skipped => {
            push_event(&mut one, left_alone(index, entry));
            assert(event_views(one@) =~= seq![skipped_event(index, entry@)]);
            one
        },
        LocalAction::Linked => {
            push_event(&mut one, completed(index, entry, 0, entry.len as u64));
            assert(event_views(one@) =~= seq![
                complete_event(index, entry@, 0, entry@.len as u64),
            ]);
            one
        },
        LocalAction::DryRun => {
            let mut events = announce(options, index, entry, probe.dest);
            push_event(&mut events, completed(index, entry, entry.len as u64, 0));
            events
        },
        LocalAction::Append { from, .. } => {
            let mut events = announce(options, index, entry, probe.dest);
            push_event(
                &mut events,
                completed(index, entry, (probe.source_len - *from) as u64, *from as u64),
            );
            events
        },
        LocalAction::NothingToAppend => {
            let mut events = announce(options, index, entry, probe.dest);
            push_event(&mut events, left_alone(index, entry));
            events
        },
        LocalAction::Transfer { .. } => announce(options, index, entry, probe.dest),
        _ => one,
    }
}

fn count_moved(entry: &FileEntry, literal: u64) -> (r: TransferStats)
    ensures
        r == moved_counts(entry@, literal),
{
    let mut d = TransferStats::new();
    d.files_transferred = 1;
    d.total_size = entry.len as u64;
    d.literal_data = literal;
    d.bytes_sent = literal;
    d
}

/// What an action adds to the statistics.
pub fn counts_of(entry: &FileEntry, probe: &LocalProbe, action: &LocalAction) -> (r: TransferStats)
    requires
        action@ is Append ==> action@->Append_from <= probe.source_len,
    ensures
        r == local_counts(entry@, *probe, action@),
{
    let mut d = TransferStats::new();
    match action {
        LocalAction::Directory { .. } => {
            d.directories_created = 1;
        },
        LocalAction::Symlink { .. } => {
            d.symlinks = 1;
        },
        LocalAction::Skipped | LocalAction::NothingToAppend => {
            d.files_skipped = 1;
        },
        LocalAction::Linked => {
            d.files_transferred = 1;
        },
        LocalAction::DryRun => {
            d.files_transferred = 1;
            d.total_size = entry.len as u64;
        },
        LocalAction::Append { from, .. } => {
            d = count_moved(entry, (probe.source_len - *from) as u64);
        },
        _ => {},
    }
    d
}

/// The steps that put moved data into place.
pub fn place_data(
    options: &TransferOptions,
    dest: &[u8],
    entry: &FileEntry,
    exists: bool,
    data_len: usize,
) -> (r: Vec<Step>)
    ensures
        step_views(r@) == finish_steps(options@, dest@, entry@, exists, data_len),
{
    let ghost o = options@;
    let path = entry_path(dest, entry);
    let mut steps: Vec<Step> = if options.backup() && exists {
        match options.backup_dir() {
            Some(d) => create_backup(path.as_slice(), options.suffix(), Some(d.as_slice())),
            None => create_backup(path.as_slice(), options.suffix(), None),
        }
    } else {
        Vec::new()
    };
    let ghost a = step_views(steps@);
    assert(a =~= (if o.behavior.backup && exists {
        backup_steps(path@, o.texts.suffix, o.paths.backup_dir)
    } else {
        Seq::empty()
    }));
    let target: Vec<u8> = match options.partial_dir() {
        Some(d) => {
            push_step(
                &mut steps,
                FsAction::MakeDir { path: copy_bytes(d.as_slice()), mode: 0o755 },
                true,
            );
            let name: Vec<u8> = match path_file_name(path.as_slice()) {
                Some(n) => n,
                None => Vec::new(),
            };
            assert(name@ =~= match file_name_of(path@) {
                Some(n) => n,
                None => Seq::empty(),
            });
            join_path(d.as_slice(), name.as_slice())
        },
        None => copy_bytes(path.as_slice()),
    };
    push_step(
        &mut steps,
        write_file_with_options(target.as_slice(), data_len, entry, options, None),
        true,
    );
    if !paths_equal(target.as_slice(), path.as_slice()) {
        push_step(
            &mut steps,
            FsAction::Rename {
                from: copy_bytes(target.as_slice()),
                to: copy_bytes(path.as_slice()),
            },
            true,
        );
    }
    if options.preserve_times() {
        push_step(
            &mut steps,
            FsAction::SetTimes {
                path: copy_bytes(path.as_slice()),
                mtime: entry.mtime,
                nsec: entry.mtime_nsec,
            },
            true,
        );
    }
    if options.preserve_owner() {
        push_step(
            &mut steps,
            FsAction::SetOwner {
                path: copy_bytes(path.as_slice()),
                uid: entry.uid,
                gid: entry.gid,
            },
            false,
        );
    }
    assert(step_views(steps@) =~= finish_steps(o, dest@, entry@, exists, data_len));
    steps
}

// ---------------------------------------------------------------------------
// A transfer from start to end
// ---------------------------------------------------------------------------

/// Where a transfer stands.
#[derive(Debug, Clone, Copy, PartialEq, Eq, Structural)]
pub enum Stage {
    /// Extraneous files are deleted before anything else.
    DeleteBefore,
    /// An entry is to be decided about.
    Item(usize),
    /// Extraneous files are deleted in the directory that an entry is.
    DeleteIn(usize),
    /// The data of an entry is being moved.
    Data(usize),
    /// Extraneous files are deleted after everything else.
    DeleteAfter,
    /// Nothing is left to do.
    Finished,
}

/// Where a transfer stands before an entry.
pub open spec fn stage_at(i: int, n: nat, mode: DeleteMode) -> Stage {
    if i < n {
        Stage::Item(i as usize)
    } else if mode == DeleteMode::After {
        Stage::DeleteAfter
    } else {
        Stage::Finished
    }
}

/// Where a transfer stands at its start.
pub open spec fn first_stage(n: nat, mode: DeleteMode) -> Stage {
    if mode == DeleteMode::Before || mode == DeleteMode::Excluded {
        Stage::DeleteBefore
    } else {
        stage_at(0, n, mode)
    }
}

/// The size of entries together.
pub open spec fn total_len(es: Seq<EntryView>) -> int
    decreases es.len(),
{
    if es.len() == 0 {
        0
    } else {
        total_len(es.drop_last()) + es.last().len
    }
}

/// A transfer: the entries, where it stands, and what was done.
#[verifier::ext_equal]
pub struct LocalView {
    pub o: OptionsView,
    pub dest: Seq<u8>,
    pub rules: Seq<RuleView>,
    pub entries: Seq<EntryView>,
    pub stage: Stage,
    pub stats: TransferStats,
    pub tracker: TrackerView,
}

impl LocalView {
    /// After a decision about an entry.
    pub open spec fn decided(self, i: int, p: LocalProbe, a: LocalActionView) -> LocalView {
        let e = self.entries[i];
        if a is TryLink || a is TryCopy {
            self
        } else {
            LocalView {
                stats: self.stats.plus(local_counts(e, p, a)),
                tracker: after_events(
                    self.tracker,
                    local_events(self.o, i as i32, e, p, a),
                ),
                stage: if a is Directory && self.o.output.delete == DeleteMode::During {
                    Stage::DeleteIn(i as usize)
                } else if a is Transfer {
                    Stage::Data(i as usize)
                } else {
                    stage_at(i + 1, self.entries.len(), self.o.output.delete)
                },
                ..self
            }
        }
    }

    /// After the data of an entry was moved.
    pub open spec fn moved(self, i: int, data_len: usize) -> LocalView {
        let e = self.entries[i];
        LocalView {
            stats: self.stats.plus(moved_counts(e, data_len as u64)),
            tracker: after_events(
                self.tracker,
                seq![complete_event(i as i32, e, data_len as u64, 0)],
            ),
            stage: stage_at(i + 1, self.entries.len(), self.o.output.delete),
            ..self
        }
    }

    /// The names that stay in the directory that is cleaned up.
    pub open spec fn kept(self) -> Seq<Seq<u8>> {
        match self.stage {
            Stage::DeleteIn(i) => children_of(self.entries, self.entries[i as int].name),
            _ => names_of(self.entries),
        }
    }

    /// The directory that is cleaned up.
    pub open spec fn cleaned_dir(self) -> Option<Seq<u8>> {
        match self.stage {
            Stage::DeleteBefore | Stage::DeleteAfter => Some(self.dest),
            Stage::DeleteIn(i) => Some(local_path(self.dest, self.entries[i as int])),
            _ => None,
        }
    }

    /// What goes from the directory that is cleaned up.
    pub open spec fn gone(self, listing: Option<&[DirEntry]>) -> Seq<
        crate::fs::metadata::DirEntryView,
    > {
        match listing {
            Some(l) => extraneous(
                listing_views(l@),
                self.kept(),
                self.rules,
                self.stage == Stage::DeleteBefore && self.o.output.delete == DeleteMode::Excluded,
            ),
            None => Seq::empty(),
        }
    }

    /// After a directory was cleaned up. Cleaning up the whole destination
    /// sets the count of deleted files, cleaning up a directory adds to it.
    pub open spec fn cleaned(self, n: nat) -> LocalView {
        match self.stage {
            Stage::DeleteIn(i) => LocalView {
                stats: TransferStats {
                    files_deleted: (self.stats.files_deleted + n) as u64,
                    ..self.stats
                },
                stage: stage_at(i + 1, self.entries.len(), self.o.output.delete),
                ..self
            },
            Stage::DeleteBefore => LocalView {
                stats: TransferStats { files_deleted: n as u64, ..self.stats },
                stage: stage_at(0, self.entries.len(), self.o.output.delete),
                ..self
            },
            _ => LocalView {
                stats: TransferStats { files_deleted: n as u64, ..self.stats },
                stage: Stage::Finished,
                ..self
            },
        }
    }
}

/// A transfer within one machine.
pub struct LocalTransfer<'a> {
    options: &'a TransferOptions,
    dest: Vec<u8>,
    filters: FilterRuleList,
    entries: Vec<FileEntry>,
    stage: Stage,
    stats: TransferStats,
    progress: ProgressTracker,
}

impl<'a> View for LocalTransfer<'a> {
    type V = LocalView;

    closed spec fn view(&self) -> LocalView {
        LocalView {
            o: self.options@,
            dest: self.dest@,
            rules: self.filters@.rules,
            entries: entry_views(self.entries@),
            stage: self.stage,
            stats: self.stats,
            tracker: self.progress@,
        }
    }
}

impl<'a> LocalTransfer<'a> {
    /// Entries can be numbered, and the stage names one of them.
    pub open spec fn wf(&self) -> bool {
        &&& self@.entries.len() <= i32::MAX
        &&& match self@.stage {
            Stage::Item(i) | Stage::DeleteIn(i) | Stage::Data(i) => i < self@.entries.len(),
            _ => true,
        }
    }

    /// The destination of a transfer and its filter rules.
    pub fn prepare(options: &TransferOptions) -> (r: Result<
        (Vec<u8>, FilterRuleList),
        FerrosyncError,
    >)
        ensures
            ({
                let o = options@;
                let rules = option_rules(
                    o.texts.exclude,
                    o.texts.include_patterns,
                    o.texts.filter,
                );
                match r {
                    Ok((dest, filters)) => o.paths.dest == Some(dest@) && rules == Ok::<
                        Seq<RuleView>,
                        FilterErrorView,
                    >(filters@.rules),
                    Err(FerrosyncError::Fs(e)) => o.paths.dest is None && e@ == (
                    FsErrorView::NotFound { path: encode_utf8("<no destination>"@) }),
                    Err(FerrosyncError::Filter(e)) => o.paths.dest is Some && rules == Err::<
                        Seq<RuleView>,
                        FilterErrorView,
                    >(e@),
                    Err(_) => false,
                }
            }),
    {
        let dest = match options.dest() {
            Some(d) => copy_bytes(d.as_slice()),
            None => {
                return Err(
                    FerrosyncError::Fs(
                        FsError::NotFound { path: copy_bytes("<no destination>".as_bytes()) },
                    ),
                );
            },
        };
        match FilterRuleList::from_options(
            options.exclude(),
            options.include_patterns(),
            options.filter(),
        ) {
            Ok(filters) => Ok((dest, filters)),
            Err(e) => Err(FerrosyncError::Filter(e)),
        }
    }

    /// A transfer at its start.
    pub fn new(
        options: &'a TransferOptions,
        dest: Vec<u8>,
        filters: FilterRuleList,
        entries: Vec<FileEntry>,
        progress: ProgressTracker,
    ) -> (r: Self)
        requires
            entries.len() <= i32::MAX,
            i64::MIN <= total_len(entry_views(entries@)) <= i64::MAX,
        ensures
            r.wf(),
            r@ == (LocalView {
                o: options@,
                dest: dest@,
                rules: filters@.rules,
                entries: entry_views(entries@),
                stage: first_stage(entries@.len(), options@.output.delete),
                stats: TransferStats { total_files: entries@.len() as u64, ..TransferStats::zero()
                },
                tracker: TrackerView {
                    files_total: entries@.len() as u64,
                    bytes_total: total_len(entry_views(entries@)) as i64 as u64,
                    ..progress@
                },
            }),
    {
        let ghost es = entry_views(entries@);
        let mut total: i128 = 0;
        let mut i: usize = 0;
        assert(es.take(0) =~= Seq::empty());
        while i < entries.len()
            invariant
                i <= entries.len(),
                es == entry_views(entries@),
                entries.len() <= i32::MAX,
                total == total_len(es.take(i as int)),
                -0x8000_0000_0000_0000 * i <= total <= 0x8000_0000_0000_0000 * i,
            decreases entries.len() - i,
        {
            proof {
                assert(es.take(i + 1).drop_last() =~= es.take(i as int));
                assert(es.take(i + 1).last() == entries[i as int]@);
            }
            total = total + entries[i].len as i128;
            i = i + 1;
        }
        assert(es.take(i as int) =~= es);
        let mut stats = TransferStats::new();
        stats.total_files = entries.len() as u64;
        let mut progress = progress;
        progress.set_totals(entries.len() as u64, total as i64 as u64);
        let mode = options.delete();
        let stage = if mode == DeleteMode::Before || mode == DeleteMode::Excluded {
            Stage::DeleteBefore
        } else {
            next_stage(0, entries.len(), mode)
        };
        LocalTransfer { options, dest, filters, entries, stage, stats, progress }
    }

    /// Where the transfer stands.
    pub fn stage(&self) -> (r: Stage)
        ensures
            r == self@.stage,
    {
        self.stage
    }

    /// The entry that is next, and its path at the destination.
    pub fn entry(&self, i: usize) -> (r: (&FileEntry, Vec<u8>))
        requires
            i < self@.entries.len(),
        ensures
            r.0@ == self@.entries[i as int],
            r.1@ == local_path(self@.dest, self@.entries[i as int]),
    {
        let e = &self.entries[i];
        (e, entry_path(self.dest.as_slice(), e))
    }

    /// Decides about the entry that is next. Where a link or copy is to be
    /// tried the transfer stays where it is.
    pub fn decide(&mut self, probe: &LocalProbe, tried: Attempts) -> (r: LocalAction)
        requires
            old(self).wf(),
            old(self)@.stage is Item,
            probe.fits(old(self)@.o),
            ({
                let v = old(self)@;
                let e = v.entries[v.stage->Item_0 as int];
                v.stats.fits(local_counts(e, *probe, local_action(v.o, v.dest, e, *probe, tried)))
                    && v.tracker.files_done + 3 <= u64::MAX
            }),
        ensures
            final(self).wf(),
            ({
                let v = old(self)@;
                let i = v.stage->Item_0 as int;
                let a = local_action(v.o, v.dest, v.entries[i], *probe, tried);
                r@ == a && final(self)@ == v.decided(i, *probe, a)
            }),
    {
        let i: usize = match self.stage {
            Stage::Item(i) => i,
            _ => 0,
        };
        let ghost v = self@;
        let entry = &self.entries[i];
        let action = decide_entry(self.options, self.dest.as_slice(), entry, probe, tried);
        match &action {
            LocalAction::TryLink { .. } | LocalAction::TryCopy { .. } => {
                return action;
            },
            _ => {},
        }
        let events = events_of(self.options, i as i32, entry, probe, &action);
        let counts = counts_of(entry, probe, &action);
        self.stats.record(counts);
        self.progress.emit_all(events);
        let mode = self.options.delete();
        let next = next_stage(i + 1, self.entries.len(), mode);
        self.stage = match &action {
            LocalAction::Directory { .. } => if mode == DeleteMode::During {
                Stage::DeleteIn(i)
            } else {
                next
            },
            LocalAction::Transfer { .. } => Stage::Data(i),
            _ => next,
        };
        assert(self@ =~= v.decided(i as int, *probe, action@));
        action
    }

    /// Takes the data of an entry that was moved and gives the steps that put
    /// it into place.
    pub fn finish(&mut self, data_len: usize, exists: bool) -> (r: Vec<Step>)
        requires
            old(self).wf(),
            old(self)@.stage is Data,
            ({
                let v = old(self)@;
                let e = v.entries[v.stage->Data_0 as int];
                v.stats.fits(moved_counts(e, data_len as u64)) && v.tracker.files_done < u64::MAX
            }),
        ensures
            final(self).wf(),
            ({
                let v = old(self)@;
                let i = v.stage->Data_0 as int;
                step_views(r@) == finish_steps(v.o, v.dest, v.entries[i], exists, data_len)
                    && final(self)@ == v.moved(i, data_len)
            }),
    {
        let i: usize = match self.stage {
            Stage::Data(i) => i,
            _ => 0,
        };
        let ghost v = self@;
        let entry = &self.entries[i];
        let steps = place_data(self.options, self.dest.as_slice(), entry, exists, data_len);
        let counts = count_moved(entry, data_len as u64);
        let mut events: Vec<ProgressEvent> = Vec::new();
        assert(event_views(events@) =~= Seq::empty());
        push_event(&mut events, completed(i as i32, entry, data_len as u64, 0));
        assert(event_views(events@) =~= seq![
            complete_event(i as i32, v.entries[i as int], data_len as u64, 0),
        ]);
        self.stats.record(counts);
        self.progress.emit_all(events);
        self.stage = next_stage(i + 1, self.entries.len(), self.options.delete());
        assert(self@ =~= v.moved(i as int, data_len));
        steps
    }

    /// The directory that is cleaned up next, where one is.
    pub fn cleans(&self) -> (r: Option<Vec<u8>>)
        requires
            self.wf(),
        ensures
            match r {
                Some(d) => self@.cleaned_dir() == Some(d@),
                None => self@.cleaned_dir() is None,
            },
    {
        match self.stage {
            Stage::DeleteBefore | Stage::DeleteAfter => Some(copy_bytes(self.dest.as_slice())),
            Stage::DeleteIn(i) => Some(entry_path(self.dest.as_slice(), &self.entries[i])),
            _ => None,
        }
    }

    /// Cleans up a directory: gives the steps that remove from its listing,
    /// where it could be read, what the source does not have.
    pub fn clean_up(&mut self, listing: Option<&[DirEntry]>) -> (r: Vec<Step>)
        requires
            old(self).wf(),
            old(self)@.cleaned_dir() is Some,
            listing is Some ==> listing->0.len() <= u64::MAX,
            old(self)@.stats.files_deleted + old(self)@.gone(listing).len() <= u64::MAX,
        ensures
            final(self).wf(),
            step_views(r@) == removals(
                old(self)@.cleaned_dir()->0,
                old(self)@.gone(listing),
                old(self)@.o.output.dry_run,
            ),
            final(self)@ == old(self)@.cleaned(old(self)@.gone(listing).len()),
    {
        let ghost v = self@;
        let mode = self.options.delete();
        let n: usize = self.entries.len();
        let (dir, keep): (Vec<u8>, Vec<Vec<u8>>) = match self.stage {
            Stage::DeleteIn(i) => {
                let e = &self.entries[i];
                (
                    entry_path(self.dest.as_slice(), e),
                    child_names(self.entries.as_slice(), e.name.as_slice()),
                )
            },
            _ => (copy_bytes(self.dest.as_slice()), all_names(self.entries.as_slice())),
        };
        let excluded = self.stage == Stage::DeleteBefore && mode == DeleteMode::Excluded;
        let dry_run = self.options.dry_run();
        let (steps, deleted): (Vec<Step>, u64) = match listing {
            Some(l) => delete_unlisted(
                dir.as_slice(),
                l,
                &keep,
                &self.filters,
                dry_run,
                excluded,
            ),
            None => {
                let none: Vec<Step> = Vec::new();
                assert(step_views(none@) =~= removals(dir@, Seq::empty(), dry_run));
                (none, 0)
            },
        };
        assert(deleted == v.gone(listing).len());
        match self.stage {
            Stage::DeleteIn(i) => {
                self.stats.files_deleted = self.stats.files_deleted + deleted;
                self.stage = next_stage(i + 1, n, mode);
            },
            Stage::DeleteBefore => {
                self.stats.files_deleted = deleted;
                self.stage = next_stage(0, n, mode);
            },
            _ => {
                self.stats.files_deleted = deleted;
                self.stage = Stage::Finished;
            },
        }
        assert(self@ =~= v.cleaned(v.gone(listing).len()));
        steps
    }

    /// The events that nobody has seen yet.
    pub fn take_events(&mut self) -> (r: Vec<ProgressEvent>)
        requires
            old(self).wf(),
        ensures
            event_views(r@) == old(self)@.tracker.pending,
            final(self).wf(),
            final(self)@ == (LocalView {
                tracker: TrackerView { pending: Seq::empty(), ..old(self)@.tracker },
                ..old(self)@
            }),
    {
        let ghost v = self@;
        let events = self.progress.take_events();
        assert(self@ =~= (LocalView {
            tracker: TrackerView { pending: Seq::empty(), ..v.tracker },
            ..v
        }));
        events
    }

    /// What was done so far.
    pub fn stats(&self) -> (r: TransferStats)
        ensures
            r == self@.stats,
    {
        self.stats
    }

    /// What was done, once nothing is left to do.
    pub fn into_result(self) -> (r: TransferResult)
        requires
            self@.stage == Stage::Finished,
        ensures
            r.stats == self@.stats,
    {
        TransferResult { stats: self.stats }
    }
}

fn next_stage(i: usize, n: usize, mode: DeleteMode) -> (r: Stage)
    ensures
        r == stage_at(i as int, n as nat, mode),
{
    if i < n {
        Stage::Item(i)
    } else if mode == DeleteMode::After {
        Stage::DeleteAfter
    } else {
        Stage::Finished
    }
}

// ---------------------------------------------------------------------------
// Entries that arrive one by one
// ---------------------------------------------------------------------------

/// What becomes of an entry that arrives.
#[derive(Debug, Clone, Copy, PartialEq, Eq, Structural)]
pub enum Arrival {
    /// Filter rules keep it out.
    Filtered,
    Directory,
    Symlink,
    /// Neither a directory, a link nor a file.
    Ignored,
    /// A file of a size that is left out.
    Skipped,
    File,
}

/// What becomes of an entry that arrives.
pub open spec fn arrival(o: OptionsView, rules: Seq<RuleView>, e: EntryView) -> Arrival {
    let t = file_type(e.mode);
    if !passes(rules, e.name, t == S_IFDIR) {
        Arrival::Filtered
    } else if t == S_IFDIR {
        Arrival::Directory
    } else if t == WIRE_S_IFLNK && o.archive.preserve_links {
        Arrival::Symlink
    } else if t != S_IFREG {
        Arrival::Ignored
    } else if size_skips(o, e.len) {
        Arrival::Skipped
    } else {
        Arrival::File
    }
}

/// The steps for an entry that arrives. A file that is there gets its time and
/// owner; its data comes another way.
pub open spec fn arrival_steps(
    o: OptionsView,
    dest: Seq<u8>,
    e: EntryView,
    a: Arrival,
    exists: bool,
) -> Seq<StepView> {
    let path = local_path(dest, e);
    match a {
        Arrival::Directory => local_dir_steps(o, dest, e),
        Arrival::Symlink => local_link_steps(o, dest, e),
        Arrival::File => if o.output.dry_run || !exists {
            Seq::empty()
        } else {
            (if o.archive.preserve_times {
                seq![may(FsActionView::SetTimes { path, mtime: e.mtime, nsec: e.mtime_nsec })]
            } else {
                Seq::empty()
            }) + (if o.archive.preserve_owner {
                seq![may(FsActionView::SetOwner { path, uid: e.uid, gid: e.gid })]
            } else {
                Seq::empty()
            })
        },
        _ => Seq::empty(),
    }
}

/// The events for an entry that arrives.
pub open spec fn arrival_events(index: i32, e: EntryView, a: Arrival) -> Seq<EventView> {
    match a {
        Arrival::Symlink => seq![complete_event(index, e, 0, 0)],
        Arrival::Skipped => seq![skipped_event(index, e)],
        Arrival::File => seq![
            EventView::FileStart { index, name: e.name, size: e.len },
            complete_event(index, e, e.len as u64, 0),
        ],
        _ => Seq::empty(),
    }
}

/// What an entry that arrives adds to the statistics.
pub open spec fn arrival_counts(e: EntryView, a: Arrival) -> TransferStats {
    let one = TransferStats { total_files: 1, ..TransferStats::zero() };
    match a {
        Arrival::Filtered => TransferStats::zero(),
        Arrival::Directory => TransferStats { directories_created: 1, ..one },
        Arrival::Symlink => TransferStats { symlinks: 1, ..one },
        Arrival::Ignored => one,
        Arrival::Skipped => TransferStats { files_skipped: 1, ..one },
        Arrival::File => TransferStats { files_transferred: 1, total_size: e.len as u64, ..one },
    }
}

/// A transfer whose entries arrive one by one.
#[verifier::ext_equal]
pub struct StreamingView {
    pub o: OptionsView,
    pub dest: Seq<u8>,
    pub rules: Seq<RuleView>,
    pub index: i32,
    pub stats: TransferStats,
    pub tracker: TrackerView,
}

impl StreamingView {
    /// After an entry.
    pub open spec fn after(self, e: EntryView) -> StreamingView {
        let a = arrival(self.o, self.rules, e);
        StreamingView {
            index: if a == Arrival::Filtered {
                self.index
            } else {
                (self.index + 1) as i32
            },
            stats: self.stats.plus(arrival_counts(e, a)),
            tracker: after_events(self.tracker, arrival_events(self.index, e, a)),
            ..self
        }
    }
}

/// A transfer whose entries arrive one by one. Nothing is deleted in it: the
/// whole list is never known.
pub struct StreamingTransfer<'a> {
    options: &'a TransferOptions,
    dest: Vec<u8>,
    filters: FilterRuleList,
    index: i32,
    stats: TransferStats,
    progress: ProgressTracker,
}

impl<'a> View for StreamingTransfer<'a> {
    type V = StreamingView;

    closed spec fn view(&self) -> StreamingView {
        StreamingView {
            o: self.options@,
            dest: self.dest@,
            rules: self.filters@.rules,
            index: self.index,
            stats: self.stats,
            tracker: self.progress@,
        }
    }
}

impl<'a> StreamingTransfer<'a> {
    /// A transfer at its start.
    pub fn new(
        options: &'a TransferOptions,
        dest: Vec<u8>,
        filters: FilterRuleList,
        progress: ProgressTracker,
    ) -> (r: Self)
        ensures
            r@ == (StreamingView {
                o: options@,
                dest: dest@,
                rules: filters@.rules,
                index: 0,
                stats: TransferStats::zero(),
                tracker: progress@,
            }),
    {
        StreamingTransfer {
            options,
            dest,
            filters,
            index: 0,
            stats: TransferStats::new(),
            progress,
        }
    }

    fn classify(&self, entry: &FileEntry) -> (r: Arrival)
        ensures
            r == arrival(self@.o, self@.rules, entry@),
    {
        if !self.filters.is_included(entry.name.as_slice(), entry.is_dir()) {
            Arrival::Filtered
        } else if entry.is_dir() {
            Arrival::Directory
        } else if entry.is_symlink() && self.options.preserve_links() {
            Arrival::Symlink
        } else if !entry.is_file() {
            Arrival::Ignored
        } else if check_size_limits(entry, self.options) {
            Arrival::Skipped
        } else {
            Arrival::File
        }
    }

    fn steps_for(&self, entry: &FileEntry, a: Arrival, exists: bool) -> (r: Vec<Step>)
        ensures
            step_views(r@) == arrival_steps(self@.o, self@.dest, entry@, a, exists),
    {
        let ghost o = self@.o;
        let dry_run = self.options.dry_run();
        let path = entry_path(self.dest.as_slice(), entry);
        let mut steps: Vec<Step> = Vec::new();
        assert(step_views(steps@) =~= Seq::empty());
        match a {
            Arrival::Directory => {
                if !dry_run {
                    let mode: u32 = if self.options.preserve_perms() {
                        entry.mode & 0o7777
                    } else {
                        0o755
                    };
                    push_step(&mut steps, FsAction::MakeDir { path, mode }, true);
                }
            },
            Arrival::Symlink => {
                if !dry_run && entry.link_target.len() > 0 {
                    let target = copy_bytes(entry.link_target.as_slice());
                    push_step(&mut steps, FsAction::SymLink { target, path }, true);
                }
            },
            Arrival::File => {
                if !dry_run && exists {
                    if self.options.preserve_times() {
                        push_step(
                            &mut steps,
                            FsAction::SetTimes {
                                path: copy_bytes(path.as_slice()),
                                mtime: entry.mtime,
                                nsec: entry.mtime_nsec,
                            },
                            false,
                        );
                    }
                    if self.options.preserve_owner() {
                        push_step(
                            &mut steps,
                            FsAction::SetOwner { path, uid: entry.uid, gid: entry.gid },
                            false,
                        );
                    }
                }
            },
            _ => {},
        }
        assert(step_views(steps@) =~= arrival_steps(o, self@.dest, entry@, a, exists));
        steps
    }

    fn events_for(&self, entry: &FileEntry, a: Arrival) -> (r: Vec<ProgressEvent>)
        ensures
            event_views(r@) == arrival_events(self@.index, entry@, a),
            r@.len() <= 2,
    {
        let index = self.index;
        let mut events: Vec<ProgressEvent> = Vec::new();
        assert(event_views(events@) =~= Seq::empty());
        match a {
            Arrival::Symlink => {
                push_event(&mut events, completed(index, entry, 0, 0));
            },
            Arrival::Skipped => {
                push_event(&mut events, left_alone(index, entry));
            },
            Arrival::File => {
                let name = copy_bytes(entry.name.as_slice());
                push_event(
                    &mut events,
                    ProgressEvent::FileStart { index, name, size: entry.len },
                );
                push_event(&mut events, completed(index, entry, entry.len as u64, 0));
            },
            _ => {},
        }
        assert(event_views(events@) =~= arrival_events(index, entry@, a));
        events
    }

    /// Takes an entry that arrives. `exists` says whether the destination has
    /// it. Returns the steps to take.
    pub fn accept(&mut self, entry: &FileEntry, exists: bool) -> (r: Vec<Step>)
        requires
            old(self)@.index < i32::MAX,
            old(self)@.stats.fits(
                arrival_counts(entry@, arrival(old(self)@.o, old(self)@.rules, entry@)),
            ),
            old(self)@.tracker.files_done + 2 <= u64::MAX,
        ensures
            step_views(r@) == arrival_steps(
                old(self)@.o,
                old(self)@.dest,
                entry@,
                arrival(old(self)@.o, old(self)@.rules, entry@),
                exists,
            ),
            final(self)@ == old(self)@.after(entry@),
    {
        let ghost v = self@;
        let a = self.classify(entry);
        let steps = self.steps_for(entry, a, exists);
        let events = self.events_for(entry, a);
        let mut d = TransferStats::new();
        match a {
            Arrival::Filtered => {},
            Arrival::Directory => {
                d.directories_created = 1;
            },
            Arrival::Symlink => {
                d.symlinks = 1;
            },
            Arrival::Ignored => {},
            Arrival::Skipped => {
                d.files_skipped = 1;
            },
            Arrival::File => {
                d.files_transferred = 1;
                d.total_size = entry.len as u64;
            },
        }
        if a != Arrival::Filtered {
            d.total_files = 1;
        }
        assert(d == arrival_counts(entry@, a));
        self.stats.record(d);
        self.progress.emit_all(events);
        if a != Arrival::Filtered {
            self.index = self.index + 1;
        }
        assert(self@ =~= v.after(entry@));
        steps
    }

    /// The events that nobody has seen yet.
    pub fn take_events(&mut self) -> (r: Vec<ProgressEvent>)
        ensures
            event_views(r@) == old(self)@.tracker.pending,
            final(self)@ == (StreamingView {
                tracker: TrackerView { pending: Seq::empty(), ..old(self)@.tracker },
                ..old(self)@
            }),
    {
        let ghost v = self@;
        let events = self.progress.take_events();
        assert(self@ =~= (StreamingView {
            tracker: TrackerView { pending: Seq::empty(), ..v.tracker },
            ..v
        }));
        events
    }

    /// What was done, once no entry is left.
    pub fn into_result(self) -> (r: TransferResult)
        ensures
            r.stats == self@.stats,
    {
        TransferResult { stats: self.stats }
    }
}

// ---------------------------------------------------------------------------
// Time limits
// ---------------------------------------------------------------------------

/// The error of a transfer that took longer than it was given.
pub open spec fn timeout_error(secs: u64) -> FsErrorView {
    FsErrorView::Io {
        path: encode_utf8("<timeout>"@),
        source: IoFailureView {
            kind: IoErrorKind::TimedOut,
            message: "transfer timed out after "@ + decimal(secs as nat) + " seconds"@,
        },
    }
}

/// Makes the error of a transfer that took longer than it was given.
pub fn timed_out(timeout_secs: u64) -> (r: FsError)
    ensures
        r@ == timeout_error(timeout_secs),
{
    let mut out: Vec<char> = Vec::new();
    push_text(&mut out, "transfer timed out after ");
    push_text(&mut out, &decimal_string(timeout_secs));
    push_text(&mut out, " seconds");
    assert(out@ =~= "transfer timed out after "@ + decimal(timeout_secs as nat) + " seconds"@);
    let message = from_chars(&out);
    FsError::Io {
        path: copy_bytes("<timeout>".as_bytes()),
        source: IoFailure { kind: IoErrorKind::TimedOut, message },
    }
}

// ---------------------------------------------------------------------------
// Laws
// ---------------------------------------------------------------------------

/// In a dry run no step is taken, and no link or copy is tried.
pub proof fn local_dry_run_takes_no_step(
    o: OptionsView,
    dest: Seq<u8>,
    e: EntryView,
    p: LocalProbe,
    tried: Attempts,
)
    requires
        o.output.dry_run,
    ensures
        match local_action(o, dest, e, p, tried) {
            LocalActionView::Directory { steps } => steps.len() == 0,
            LocalActionView::Symlink { steps } => steps.len() == 0,
            LocalActionView::Ignored | LocalActionView::Skipped | LocalActionView::DryRun => true,
            _ => false,
        },
{
}

/// A file that has the size and the time of its source is skipped, unless it is
/// linked or copied from an alternate directory: what one transfer has written
/// with its time, the next leaves alone.
pub proof fn synced_file_is_skipped(
    o: OptionsView,
    dest: Seq<u8>,
    e: EntryView,
    p: LocalProbe,
    tried: Attempts,
)
    requires
        file_type(e.mode) == S_IFREG,
        !o.behavior.checksum_mode,
        p.dest is Some && p.dest->0.len == e.len && p.dest->0.mtime == e.mtime,
        local_link_source(o, e, p) is None,
        local_copy_source(o, e, p) is None,
    ensures
        local_action(o, dest, e, p, tried) == LocalActionView::Skipped,
{
    assert(S_IFREG != S_IFDIR && S_IFREG != WIRE_S_IFLNK);
}

/// A regular file is counted once, as transferred or as skipped, and the work
/// on it ends with one event: by the decision about it, or, where its data is
/// moved, by the end of that.
pub proof fn each_file_ends_once(
    o: OptionsView,
    dest: Seq<u8>,
    index: i32,
    e: EntryView,
    p: LocalProbe,
    tried: Attempts,
)
    requires
        file_type(e.mode) == S_IFREG,
    ensures
        ({
            let a = local_action(o, dest, e, p, tried);
            let c = local_counts(e, p, a);
            let ev = local_events(o, index, e, p, a);
            let waits = a is TryLink || a is TryCopy || a is Transfer;
            &&& c.files_transferred + c.files_skipped == (if waits {
                0int
            } else {
                1
            })
            &&& !waits ==> ev.len() > 0 && ends_file(ev.last())
            &&& forall|k: int|
                0 <= k < ev.len() && (waits || k < ev.len() - 1) ==> !ends_file(#[trigger] ev[k])
        }),
{
    assert(S_IFREG != S_IFDIR && S_IFREG != WIRE_S_IFLNK);
    let a = local_action(o, dest, e, p, tried);
    let start = start_events(o, index, e, p.dest);
    assert(forall|k: int| 0 <= k < start.len() ==> !ends_file(#[trigger] start[k]));
    let ev = local_events(o, index, e, p, a);
    assert forall|k: int| 0 <= k < ev.len() - 1 implies !ends_file(#[trigger] ev[k]) by {
        if ev.len() > 1 && !(a is Transfer) {
            assert(ev[k] == start[k]);
        }
    }
}

/// A transfer comes to its end: each stage leads to a later one.
pub proof fn stages_go_on(v: LocalView, i: int, p: LocalProbe, a: LocalActionView, n: nat, len: usize)
    requires
        0 <= i < v.entries.len() <= i32::MAX,
    ensures
        v.stage == Stage::Item(i as usize) && !(a is TryLink || a is TryCopy) ==> stage_rank(
            v.decided(i, p, a).stage,
        ) > stage_rank(v.stage),
        v.stage == Stage::Data(i as usize) ==> stage_rank(v.moved(i, len).stage) > stage_rank(
            v.stage,
        ),
        v.stage == Stage::DeleteIn(i as usize) || v.stage == Stage::DeleteBefore || v.stage
            == Stage::DeleteAfter ==> stage_rank(v.cleaned(n).stage) > stage_rank(v.stage),
{
}

/// The order of the stages.
pub open spec fn stage_rank(s: Stage) -> int {
    match s {
        Stage::DeleteBefore => 0,
        Stage::Item(i) => 1 + 2 * i,
        Stage::DeleteIn(i) => 2 + 2 * i,
        Stage::Data(i) => 2 + 2 * i,
        Stage::DeleteAfter => 0x2_0000_0000,
        Stage::Finished => 0x2_0000_0001,
    }
}

} // verus!

//! Sync sessions: the course of a transfer over a transport.
//!
//! A session connects, shakes hands, exchanges filter rules and file lists, and
//! transfers files. What comes in which order, what is sent before the file
//! list, and what is accepted of the other side is decided here.

use vstd::prelude::*;
use vstd::utf8::encode_utf8;

use crate::engine::file_decision::{
    climbs, leads_out, without_parents_inside,
};
use crate::engine::progress::{
    after_events, event_views, fresh_tracker, push_event, EventView, ProgressEvent,
    ProgressTracker, TrackerView,
};
use crate::engine::wire_sender::sent_event;
use crate::error::{FsError, FsErrorView};
use crate::filelist::entry::{
    compute_entry_name, copy_bytes, entry_name_of, entry_views, file_type, EntryView, FileEntry,
    S_IFDIR, S_IFREG, WIRE_S_IFLNK,
};
use crate::filelist::scanner::{source_meta, target_stages, Source};
use crate::filelist::walk::{
    add_target, collect_directory_entries, entry_plan, visit_entries, visits, with_target,
    WalkOptions,
};
use crate::filter::rule::{passes, FilterRuleList, RuleView};
use crate::fs::metadata::{entry_for, is_directory, FileMetadata};
use crate::fs::plan::{may, push_step, step_views, FsAction, FsActionView, Step, StepView};
use crate::options::{text_views, DeleteMode, OptionsView, TransferOptions};
use crate::path::{component_end, component_end_bound, is_absolute, join_path, joined, path_is_absolute};
use crate::protocol::varint::{int_bytes, write_int};
use crate::protocol::wire::write_bytes;
use crate::stats::TransferStats;
use crate::text::{lossy_string, lossy_text, push_text, to_chars, from_chars};

verus! {

/// Direction of the sync operation.
#[derive(Debug, Clone, Copy, PartialEq, Eq, Structural)]
pub enum SyncDirection {
    /// Push local files to remote (we are the sender).
    Push,
    /// Pull remote files to local (we are the receiver).
    Pull,
}

/// A sync session over a transport.
pub struct SyncSession<T> {
    transport: T,
    options: TransferOptions,
    direction: SyncDirection,
    progress: ProgressTracker,
}

/// What a session consists of.
pub struct SessionParts<T> {
    pub transport: T,
    pub options: TransferOptions,
    pub direction: SyncDirection,
    pub progress: ProgressTracker,
}

impl<T> SyncSession<T> {
    /// The transport of the session.
    pub closed spec fn link(&self) -> T {
        self.transport
    }

    /// The options of the session.
    pub closed spec fn opts(&self) -> OptionsView {
        self.options@
    }

    /// The direction of the session.
    pub closed spec fn way(&self) -> SyncDirection {
        self.direction
    }

    /// The progress of the session.
    pub closed spec fn tracker(&self) -> TrackerView {
        self.progress@
    }

    /// Create a new sync session.
    pub fn new(transport: T, options: TransferOptions, direction: SyncDirection) -> (r: Self)
        ensures
            r.link() == transport,
            r.opts() == options@,
            r.way() == direction,
            r.tracker() == fresh_tracker(false),
    {
        SyncSession { transport, options, direction, progress: ProgressTracker::new() }
    }

    /// Set a custom progress tracker.
    pub fn with_progress(self, progress: ProgressTracker) -> (r: Self)
        ensures
            r.link() == self.link(),
            r.opts() == self.opts(),
            r.way() == self.way(),
            r.tracker() == progress@,
    {
        SyncSession {
            transport: self.transport,
            options: self.options,
            direction: self.direction,
            progress,
        }
    }

    /// Takes the session apart to run it.
    pub fn into_parts(self) -> (r: SessionParts<T>)
        ensures
            r.transport == self.link(),
            r.options@ == self.opts(),
            r.direction == self.way(),
            r.progress@ == self.tracker(),
    {
        SessionParts {
            transport: self.transport,
            options: self.options,
            direction: self.direction,
            progress: self.progress,
        }
    }
}

// ---------------------------------------------------------------------------
// The course of a session
// ---------------------------------------------------------------------------

/// A stage of a session.
#[derive(Debug, Clone, Copy, PartialEq, Eq, Structural)]
pub enum SessionStage {
    /// Filter rules are sent.
    SendFilters,
    /// The file list is sent.
    SendList,
    /// The file list is received and checked.
    ReceiveList,
    /// The file list is shown.
    ShowList,
    /// Files are sent as they are asked for.
    SendFiles,
    /// Extraneous files are deleted.
    Delete,
    /// Files are counted as if they were received.
    CountFiles,
    /// Files are received.
    ReceiveFiles,
    /// Symbolic links are made.
    MakeLinks,
    /// Empty directories are removed.
    Prune,
    /// The ends of the phases are exchanged.
    EndPhases,
    /// Statistics are read.
    ReadStats,
    /// Both sides part.
    Goodbye,
}

/// A stage that is only there under a condition.
pub open spec fn stage_if(cond: bool, s: SessionStage) -> Seq<SessionStage> {
    if cond {
        seq![s]
    } else {
        Seq::empty()
    }
}

/// The other side of a push reads filter rules only where something is deleted
/// or pruned.
pub open spec fn push_sends_filters(o: OptionsView) -> bool {
    o.output.delete != DeleteMode::Off || o.tree.prune_empty_dirs
}

/// The course of a push.
pub open spec fn push_course(o: OptionsView) -> Seq<SessionStage> {
    stage_if(push_sends_filters(o), SessionStage::SendFilters) + seq![SessionStage::SendList] + (
    if o.output.list_only {
        seq![SessionStage::ShowList]
    } else {
        seq![SessionStage::SendFiles]
    }) + seq![SessionStage::Goodbye]
}

/// Extraneous files are deleted before the files are received.
pub open spec fn pull_deletes_first(o: OptionsView) -> bool {
    o.output.delete == DeleteMode::Before || o.output.delete == DeleteMode::During
        || o.output.delete == DeleteMode::Excluded
}

/// What a pull does with the files of the list.
pub open spec fn pull_work(o: OptionsView) -> Seq<SessionStage> {
    stage_if(pull_deletes_first(o), SessionStage::Delete) + (if o.output.dry_run {
        seq![SessionStage::CountFiles]
    } else {
        seq![SessionStage::ReceiveFiles, SessionStage::MakeLinks]
    }) + stage_if(o.output.delete == DeleteMode::After, SessionStage::Delete) + stage_if(
        o.tree.prune_empty_dirs,
        SessionStage::Prune,
    )
}

/// The course of a pull. The other side always reads filter rules.
pub open spec fn pull_course(o: OptionsView) -> Seq<SessionStage> {
    seq![SessionStage::SendFilters, SessionStage::ReceiveList] + (if o.output.list_only {
        seq![SessionStage::ShowList]
    } else {
        pull_work(o)
    }) + seq![SessionStage::EndPhases, SessionStage::ReadStats, SessionStage::Goodbye]
}

/// The course of a session in a direction.
pub fn session_course(direction: SyncDirection, options: &TransferOptions) -> (r: Vec<SessionStage>)
    ensures
        r@ == (match direction {
            SyncDirection::Push => push_course(options@),
            SyncDirection::Pull => pull_course(options@),
        }),
{
    let mode = options.delete();
    let mut c: Vec<SessionStage> = Vec::new();
    match direction {
        SyncDirection::Push => {
            if mode != DeleteMode::Off || options.prune_empty_dirs() {
                c.push(SessionStage::SendFilters);
            }
            c.push(SessionStage::SendList);
            if options.list_only() {
                c.push(SessionStage::ShowList);
            } else {
                c.push(SessionStage::SendFiles);
            }
            c.push(SessionStage::Goodbye);
            assert(c@ =~= push_course(options@));
        },
        SyncDirection::Pull => {
            c.push(SessionStage::SendFilters);
            c.push(SessionStage::ReceiveList);
            if options.list_only() {
                c.push(SessionStage::ShowList);
            } else {
                if mode == DeleteMode::Before || mode == DeleteMode::During || mode
                    == DeleteMode::Excluded {
                    c.push(SessionStage::Delete);
                }
                if options.dry_run() {
                    c.push(SessionStage::CountFiles);
                } else {
                    c.push(SessionStage::ReceiveFiles);
                    c.push(SessionStage::MakeLinks);
                }
                if mode == DeleteMode::After {
                    c.push(SessionStage::Delete);
                }
                if options.prune_empty_dirs() {
                    c.push(SessionStage::Prune);
                }
            }
            c.push(SessionStage::EndPhases);
            c.push(SessionStage::ReadStats);
            c.push(SessionStage::Goodbye);
            assert(c@ =~= pull_course(options@));
        },
    }
    c
}

// ---------------------------------------------------------------------------
// Filter rules on the wire
// ---------------------------------------------------------------------------

/// A length as sent: its low 32 bits.
pub open spec fn sent_len(n: nat) -> i32 {
    n as usize as i32
}

/// The bytes of a rule: its length, then the rule.
pub open spec fn rule_bytes(rule: Seq<char>) -> Seq<u8> {
    let b = encode_utf8(rule);
    int_bytes(sent_len(b.len())) + b
}

/// The bytes of rules with something in front of each.
pub open spec fn rules_bytes(front: Seq<char>, rules: Seq<Seq<char>>) -> Seq<u8>
    decreases rules.len(),
{
    if rules.len() == 0 {
        Seq::empty()
    } else {
        rules_bytes(front, rules.drop_last()) + rule_bytes(front + rules.last())
    }
}

/// The bytes of the filter rules of a session: excludes, includes, then other
/// rules, and an empty rule at the end.
pub open spec fn filter_list_bytes(o: OptionsView) -> Seq<u8> {
    rules_bytes("- "@, o.texts.exclude) + rules_bytes("+ "@, o.texts.include_patterns)
        + rules_bytes(Seq::empty(), o.texts.filter) + int_bytes(0)
}

fn push_rules(out: &mut Vec<u8>, front: &[char], rules: &[String])
    ensures
        final(out)@ == old(out)@ + rules_bytes(front@, text_views(rules@)),
{
    let ghost had = out@;
    let ghost all = text_views(rules@);
    let mut i: usize = 0;
    assert(had + rules_bytes(front@, all.take(0)) =~= had);
    while i < rules.len()
        invariant
            i <= rules.len(),
            all == text_views(rules@),
            out@ == had + rules_bytes(front@, all.take(i as int)),
        decreases rules.len() - i,
    {
        proof {
            assert(all.take(i + 1).drop_last() =~= all.take(i as int));
            assert(all.take(i + 1).last() == rules@[i as int]@);
        }
        let ghost before = out@;
        let mut text: Vec<char> = Vec::new();
        text.extend_from_slice(front);
        push_text(&mut text, rules[i].as_str());
        assert(text@ =~= front@ + rules@[i as int]@);
        let rule = from_chars(text.as_slice());
        let bytes = rule.as_str().as_bytes();
        write_int(out, bytes.len() as i32);
        write_bytes(out, bytes);
        assert(out@ =~= before + rule_bytes(text@));
        i = i + 1;
        assert(out@ =~= had + rules_bytes(front@, all.take(i as int)));
    }
    assert(all.take(i as int) =~= all);
}

/// Collect the exclusion/filter list into a byte buffer.
///
/// Each rule is a 4-byte LE length followed by the rule string. A zero length
/// terminates the list.
pub fn collect_filter_list(options: &TransferOptions) -> (r: Vec<u8>)
    ensures
        r@ == filter_list_bytes(options@),
{
    let mut out: Vec<u8> = Vec::new();
    let minus = to_chars("- ");
    let plus = to_chars("+ ");
    let none: Vec<char> = Vec::new();
    assert(none@ =~= Seq::empty());
    push_rules(&mut out, minus.as_slice(), options.exclude());
    push_rules(&mut out, plus.as_slice(), options.include_patterns());
    push_rules(&mut out, none.as_slice(), options.filter());
    write_int(&mut out, 0);
    assert(out@ =~= filter_list_bytes(options@));
    out
}

// ---------------------------------------------------------------------------
// Names that are accepted
// ---------------------------------------------------------------------------

/// The name of an entry as text.
pub open spec fn name_text(name: Seq<u8>) -> Seq<u8> {
    encode_utf8(lossy_text(name))
}

/// A name is refused: it is absolute or has `..` among its components.
pub open spec fn name_refused(t: Seq<u8>) -> bool {
    is_absolute(t) || climbs(t, 0)
}

/// Sanitize a wire-received filename to prevent path traversal.
///
/// Rejects absolute paths and `..` components.
pub fn sanitize_path(dest: &[u8], name: &[u8]) -> (r: Result<Vec<u8>, FsError>)
    ensures
        match r {
            Ok(p) => !name_refused(name@) && p@ == joined(dest@, name@),
            Err(e) => name_refused(name@) && e@ == (FsErrorView::PermissionDenied { path: name@ }),
        },
{
    if path_is_absolute(name) {
        return Err(FsError::PermissionDenied { path: copy_bytes(name) });
    }
    let mut i: usize = 0;
    while i < name.len()
        invariant
            i <= name.len(),
            !is_absolute(name@),
            climbs(name@, 0) == climbs(name@, i as int),
        decreases name.len() - i,
    {
        let start: usize = i;
        while i < name.len() && name[i] != 0x2F
            invariant
                start <= i <= name.len(),
                component_end(name@, start as int) == component_end(name@, i as int),
            decreases name.len() - i,
        {
            i = i + 1;
        }
        let c = vstd::slice::slice_subrange(name, start, i);
        proof {
            component_end_bound(name@, start as int);
            assert(c@ =~= name@.subrange(start as int, i as int));
        }
        if c.len() == 2 && c[0] == 0x2E && c[1] == 0x2E {
            assert(c@ =~= seq![0x2Eu8, 0x2Eu8]);
            return Err(FsError::PermissionDenied { path: copy_bytes(name) });
        }
        assert(c@ != seq![0x2Eu8, 0x2Eu8]);
        if i == name.len() {
            assert(!climbs(name@, i + 1));
            return Ok(join_path(dest, name));
        }
        i = i + 1;
    }
    Ok(join_path(dest, name))
}

/// A name that is accepted never leads out of the destination, at any of its
/// components.
pub proof fn accepted_name_stays_inside(t: Seq<u8>)
    requires
        !name_refused(t),
    ensures
        !leads_out(t, 0, 0),
{
    without_parents_inside(t, 0, 0);
}

/// The first entry from a place on whose name is refused; their number where
/// all are accepted.
pub open spec fn first_refused(es: Seq<EntryView>, i: int) -> int
    decreases es.len() - i,
{
    if i >= es.len() || name_refused(name_text(es[i].name)) {
        i
    } else {
        first_refused(es, i + 1)
    }
}

/// Checks the names of a received list.
pub fn check_names(dest: &[u8], entries: &[FileEntry]) -> (r: Result<(), FsError>)
    ensures
        ({
            let es = entry_views(entries@);
            let k = first_refused(es, 0);
            match r {
                Ok(_) => k == es.len(),
                Err(e) => 0 <= k < es.len() && e@ == (FsErrorView::PermissionDenied {
                    path: name_text(es[k].name),
                }),
            }
        }),
{
    let ghost es = entry_views(entries@);
    let mut i: usize = 0;
    while i < entries.len()
        invariant
            i <= entries.len(),
            es == entry_views(entries@),
            first_refused(es, 0) == first_refused(es, i as int),
        decreases entries.len() - i,
    {
        let text = lossy_string(entries[i].name.as_slice());
        match sanitize_path(dest, text.as_str().as_bytes()) {
            Err(e) => {
                return Err(e);
            },
            Ok(_) => {},
        }
        i = i + 1;
    }
    Ok(())
}

// ---------------------------------------------------------------------------
// What a pull does with the list
// ---------------------------------------------------------------------------

/// What an entry of a pull that is a dry run adds to the statistics.
pub open spec fn counted(e: EntryView) -> TransferStats {
    let zero = TransferStats::zero();
    if file_type(e.mode) == S_IFDIR {
        TransferStats { directories_created: 1, ..zero }
    } else if file_type(e.mode) == S_IFREG {
        TransferStats { files_transferred: 1, total_size: e.len as u64, ..zero }
    } else {
        zero
    }
}

/// The statistics after the entries of a dry run.
pub open spec fn counted_all(stats: TransferStats, es: Seq<EntryView>) -> TransferStats
    decreases es.len(),
{
    if es.len() == 0 {
        stats
    } else {
        counted_all(stats, es.drop_last()).plus(counted(es.last()))
    }
}

/// The statistics stay in range over the entries of a dry run.
pub open spec fn counts_fit(stats: TransferStats, es: Seq<EntryView>) -> bool {
    forall|i: int|
        0 <= i < es.len() ==> counted_all(stats, #[trigger] es.take(i)).fits(counted(es[i]))
}

/// The events of the entries of a dry run: one for each file.
pub open spec fn counted_events(es: Seq<EntryView>) -> Seq<EventView>
    decreases es.len(),
{
    if es.len() == 0 {
        Seq::empty()
    } else {
        let e = es.last();
        let before = counted_events(es.drop_last());
        if file_type(e.mode) == S_IFREG {
            before.push(sent_event((es.len() - 1) as i32, e, e.len as u64, 0))
        } else {
            before
        }
    }
}

/// Counts the entries of a pull that is a dry run.
pub fn count_files(
    entries: &[FileEntry],
    stats: &mut TransferStats,
    progress: &mut ProgressTracker,
)
    requires
        entries.len() <= i32::MAX,
        counts_fit(*old(stats), entry_views(entries@)),
        old(progress)@.files_done + entries.len() <= u64::MAX,
    ensures
        *final(stats) == counted_all(*old(stats), entry_views(entries@)),
        final(progress)@ == after_events(old(progress)@, counted_events(entry_views(entries@))),
{
    let ghost es = entry_views(entries@);
    let mut events: Vec<ProgressEvent> = Vec::new();
    let mut i: usize = 0;
    assert(es.take(0) =~= Seq::empty());
    assert(event_views(events@) =~= Seq::empty());
    while i < entries.len()
        invariant
            i <= entries.len(),
            entries.len() <= i32::MAX,
            es == entry_views(entries@),
            counts_fit(*old(stats), es),
            *stats == counted_all(*old(stats), es.take(i as int)),
            event_views(events@) == counted_events(es.take(i as int)),
            event_views(events@).len() <= i,
        decreases entries.len() - i,
    {
        let e = &entries[i];
        proof {
            assert(es.take(i + 1).drop_last() =~= es.take(i as int));
            assert(es.take(i + 1).last() == e@);
            assert(es[i as int] == e@);
            assert(S_IFREG != S_IFDIR);
        }
        let mut d = TransferStats::new();
        if e.is_dir() {
            d.directories_created = 1;
        } else if e.is_file() {
            d.files_transferred = 1;
            d.total_size = e.len as u64;
            push_event(
                &mut events,
                ProgressEvent::FileComplete {
                    index: i as i32,
                    name: copy_bytes(e.name.as_slice()),
                    literal_bytes: e.len as u64,
                    matched_bytes: 0,
                },
            );
        }
        assert(d == counted(e@));
        stats.record(d);
        i = i + 1;
    }
    assert(es.take(i as int) =~= es);
    progress.emit_all(events);
}

/// An entry is a symbolic link that is kept.
pub open spec fn kept_link(o: OptionsView, e: EntryView) -> bool {
    file_type(e.mode) == WIRE_S_IFLNK && o.archive.preserve_links
}

/// The steps that make the symbolic links of a list.
pub open spec fn link_steps(o: OptionsView, dest: Seq<u8>, es: Seq<EntryView>) -> Seq<StepView>
    decreases es.len(),
{
    if es.len() == 0 {
        Seq::empty()
    } else {
        let before = link_steps(o, dest, es.drop_last());
        let e = es.last();
        if kept_link(o, e) && e.link_target.len() > 0 {
            before.push(
                may(
                    FsActionView::SymLink {
                        target: e.link_target,
                        path: joined(dest, name_text(e.name)),
                    },
                ),
            )
        } else {
            before
        }
    }
}

/// How many symbolic links of a list are kept.
pub open spec fn link_count(o: OptionsView, es: Seq<EntryView>) -> nat
    decreases es.len(),
{
    if es.len() == 0 {
        0
    } else {
        link_count(o, es.drop_last()) + (if kept_link(o, es.last()) {
            1nat
        } else {
            0
        })
    }
}

/// Makes the symbolic links of a list: gives the steps, and how many links
/// there are.
pub fn make_links(entries: &[FileEntry], dest: &[u8], options: &TransferOptions) -> (r: (
    Vec<Step>,
    u64,
))
    ensures
        step_views(r.0@) == link_steps(options@, dest@, entry_views(entries@)),
        r.1 == link_count(options@, entry_views(entries@)),
{
    let ghost es = entry_views(entries@);
    let ghost o = options@;
    let mut steps: Vec<Step> = Vec::new();
    let mut n: u64 = 0;
    let mut i: usize = 0;
    assert(es.take(0) =~= Seq::empty());
    assert(step_views(steps@) =~= Seq::empty());
    while i < entries.len()
        invariant
            i <= entries.len(),
            es == entry_views(entries@),
            o == options@,
            step_views(steps@) == link_steps(o, dest@, es.take(i as int)),
            n == link_count(o, es.take(i as int)),
            n <= i,
        decreases entries.len() - i,
    {
        let e = &entries[i];
        proof {
            assert(es.take(i + 1).drop_last() =~= es.take(i as int));
            assert(es.take(i + 1).last() == e@);
        }
        if e.is_symlink() && options.preserve_links() {
            if e.link_target.len() > 0 {
                let text = lossy_string(e.name.as_slice());
                push_step(
                    &mut steps,
                    FsAction::SymLink {
                        target: copy_bytes(e.link_target.as_slice()),
                        path: join_path(dest, text.as_str().as_bytes()),
                    },
                    false,
                );
            }
            n = n + 1;
        }
        i = i + 1;
    }
    assert(es.take(i as int) =~= es);
    (steps, n)
}

// ---------------------------------------------------------------------------
// The list of a push
// ---------------------------------------------------------------------------

/// How the sources of a push are walked.
pub open spec fn push_walk(o: OptionsView) -> WalkOptions {
    WalkOptions {
        copy_links: o.tree.copy_links,
        one_file_system: false,
        filter_merge_files: o.limits.filter_merge_files,
    }
}

/// What one source adds to the list of a push.
pub open spec fn pushed_entries(s: Source, rules: Seq<RuleView>, o: OptionsView) -> Result<
    Seq<EntryView>,
    FsErrorView,
> {
    match source_meta(s, o.tree.copy_links) {
        Err(e) => Err(e),
        Ok(None) => Ok(Seq::empty()),
        Ok(Some(m)) => {
            let name = entry_name_of(s.path@, o.tree.relative);
            let node = s.found->Ok_0;
            if !passes(rules, name, is_directory(m)) {
                Ok(Seq::empty())
            } else if is_directory(m) && o.archive.recursive {
                match visits(
                    node,
                    if o.tree.relative {
                        name
                    } else {
                        Seq::empty()
                    },
                    rules,
                    entry_plan(push_walk(o)),
                    true,
                    target_stages(!o.tree.copy_links),
                ) {
                    Err(e) => Err(e),
                    Ok(v) => Ok(visit_entries(v)),
                }
            } else {
                Ok(seq![with_target(entry_for(m, name), node, !o.tree.copy_links)])
            }
        },
    }
}

/// What the first sources add to the list of a push.
pub open spec fn all_pushed(sources: Seq<Source>, n: nat, rules: Seq<RuleView>, o: OptionsView) -> Result<
    Seq<EntryView>,
    FsErrorView,
>
    decreases n,
{
    if n == 0 {
        Ok(Seq::empty())
    } else {
        match all_pushed(sources, (n - 1) as nat, rules, o) {
            Err(e) => Err(e),
            Ok(before) => match pushed_entries(sources[n - 1], rules, o) {
                Err(e) => Err(e),
                Ok(more) => Ok(before + more),
            },
        }
    }
}

proof fn push_error_stays(
    sources: Seq<Source>,
    n: nat,
    m: nat,
    rules: Seq<RuleView>,
    o: OptionsView,
)
    requires
        n <= m,
        all_pushed(sources, n, rules, o) is Err,
    ensures
        all_pushed(sources, m, rules, o) == all_pushed(sources, n, rules, o),
    decreases m,
{
    if n < m {
        push_error_stays(sources, n, (m - 1) as nat, rules, o);
    }
}

fn push_source(
    source: &Source,
    entries: &mut Vec<FileEntry>,
    filters: &mut FilterRuleList,
    options: &TransferOptions,
) -> (r: Result<(), FsError>)
    ensures
        ({
            let found = pushed_entries(*source, old(filters)@.rules, options@);
            match r {
                Ok(_) => found is Ok && entry_views(final(entries)@) == entry_views(old(entries)@)
                    + found->Ok_0 && final(filters)@ == old(filters)@,
                Err(e) => found == Err::<Seq<EntryView>, FsErrorView>(e@),
            }
        }),
{
    let ghost had = entry_views(entries@);
    let ghost o = options@;
    assert(had + Seq::<EntryView>::empty() =~= had);
    let copy_links = options.copy_links();
    let node = match &source.found {
        Ok(n) => n,
        Err(e) => {
            if copy_links {
                return Ok(());
            }
            return Err(e.clone());
        },
    };
    let m: FileMetadata = if copy_links {
        match &node.followed {
            Ok(m) => *m,
            Err(_) => {
                return Ok(());
            },
        }
    } else {
        node.meta
    };
    let name = compute_entry_name(source.path.as_slice(), options.relative());
    let is_dir = m.is_dir();
    if !filters.is_included(name.as_slice(), is_dir) {
        return Ok(());
    }
    if is_dir && options.recursive() {
        let prefix: Vec<u8> = if options.relative() {
            name
        } else {
            Vec::new()
        };
        let walk_opts = WalkOptions {
            copy_links,
            one_file_system: false,
            filter_merge_files: options.filter_merge_files(),
        };
        proof {
            assert(walk_opts == push_walk(o));
            if !o.tree.relative {
                assert(prefix@ =~= Seq::empty());
            }
        }
        return collect_directory_entries(node, prefix.as_slice(), entries, filters, &walk_opts);
    }
    let mut entry = m.to_file_entry(name);
    add_target(&mut entry, node, !copy_links);
    let ghost ev = entry@;
    entries.push(entry);
    assert(entry_views(entries@) =~= had + seq![ev]);
    Ok(())
}

/// Builds the file list of a push from what was found at its sources.
pub fn build_source_entries(
    sources: &[Source],
    filters: FilterRuleList,
    options: &TransferOptions,
) -> (r: Result<Vec<FileEntry>, FsError>)
    ensures
        ({
            let found = all_pushed(sources@, sources@.len(), filters@.rules, options@);
            match r {
                Ok(v) => found == Ok::<Seq<EntryView>, FsErrorView>(entry_views(v@)),
                Err(e) => found == Err::<Seq<EntryView>, FsErrorView>(e@),
            }
        }),
{
    let ghost rules = filters@.rules;
    let mut scopes = filters;
    let ghost o = options@;
    let mut entries: Vec<FileEntry> = Vec::new();
    let mut i: usize = 0;
    assert(entry_views(entries@) =~= Seq::empty());
    while i < sources.len()
        invariant
            i <= sources.len(),
            rules == filters@.rules,
            scopes@ == filters@,
            o == options@,
            all_pushed(sources@, i as nat, rules, o) == Ok::<Seq<EntryView>, FsErrorView>(
                entry_views(entries@),
            ),
        decreases sources.len() - i,
    {
        match push_source(&sources[i], &mut entries, &mut scopes, options) {
            Err(e) => {
                proof {
                    push_error_stays(sources@, (i + 1) as nat, sources@.len(), rules, o);
                }
                return Err(e);
            },
            Ok(_) => {},
        }
        i = i + 1;
    }
    Ok(entries)
}

} // verus!

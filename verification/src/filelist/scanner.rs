//! Composable file list scanning.
//!
//! A scanner turns the trees below the sources into a file list. Filter rules
//! apply while it descends, and enrichers add to each entry, or to the whole
//! list when it is complete.

use vstd::prelude::*;
use vstd::utf8::encode_utf8;

use crate::error::{FsError, FsErrorView};
pub use crate::filelist::attributes::{
    AclEnricher, FoundAttr, PosixAcl, XattrEnricher, XattrEntry,
};
use crate::filelist::entry::{
    compute_entry_name, copy_bytes, entry_name_of, entry_views, file_name_of, path_file_name,
    EntryView, FileEntry, HardLinkInfo,
};
use crate::filelist::groups::{
    earlier_name, earlier_names, group_entries, grouped_entries, grouped_entry, link_infos,
};
use crate::filelist::walk::{
    add_target, left, meta_of, node_names, push_entries, visit_entries, visit_views, visits, walk,
    walk_meta, with_target, Node, Visit, VisitView, WalkOptions, WalkPlan,
};
use crate::filter::rule::{passes, FilterRuleList, RuleListView, RuleView};
use crate::fs::metadata::{entry_for, is_directory, FileMetadata};
use crate::options::DirectoryMode;
use crate::order::{name_order, order_of_names, views};
use crate::path::{join_path, joined};
use crate::text::{
    from_chars, line_end, line_end_bound, lossy_string, lossy_text, to_chars, trim, trimmed,
};

verus! {

// ---------------------------------------------------------------------------
// Items
// ---------------------------------------------------------------------------

/// A file list entry with associated source path and index.
#[derive(Debug)]
pub struct FileListItem {
    /// Index in the file list (used for progress events and wire references).
    pub index: i32,
    /// The wire-format file entry metadata.
    pub entry: FileEntry,
    /// Path to the source file on disk.
    pub source_path: Vec<u8>,
}

/// The view of a [`FileListItem`].
#[verifier::ext_equal]
pub struct ItemView {
    pub index: i32,
    pub entry: EntryView,
    pub source_path: Seq<u8>,
}

impl View for FileListItem {
    type V = ItemView;

    open spec fn view(&self) -> ItemView {
        ItemView { index: self.index, entry: self.entry@, source_path: self.source_path@ }
    }
}

/// The views of items.
pub open spec fn item_views(s: Seq<FileListItem>) -> Seq<ItemView> {
    Seq::new(s.len(), |i: int| s[i]@)
}

/// Options controlling the file list scan behavior.
#[derive(Debug, Clone, Copy, PartialEq, Eq, Structural)]
pub struct ScanOptions {
    /// How to handle directories: recurse, list, or skip.
    pub dir_mode: DirectoryMode,
    /// Don't cross filesystem boundaries (`-x`).
    pub one_file_system: bool,
    /// Follow symlinks during scan (`-L`).
    pub copy_links: bool,
    /// Preserve full relative path structure (`-R`).
    pub relative: bool,
    /// Per-directory .rsync-filter merge level: 0=off, 1=-F, 2=-FF.
    pub filter_merge_files: u8,
    /// Compute hardlink groups (`-H`).
    pub preserve_hard_links: bool,
}

impl Default for ScanOptions {
    fn default() -> (r: ScanOptions)
        ensures
            r == (ScanOptions {
                dir_mode: DirectoryMode::Skip,
                one_file_system: false,
                copy_links: false,
                relative: false,
                filter_merge_files: 0,
                preserve_hard_links: false,
            }),
    {
        ScanOptions {
            dir_mode: DirectoryMode::Skip,
            one_file_system: false,
            copy_links: false,
            relative: false,
            filter_merge_files: 0,
            preserve_hard_links: false,
        }
    }
}

// ---------------------------------------------------------------------------
// Enrichers
// ---------------------------------------------------------------------------

/// Per-entry and post-scan enrichment of file list entries.
pub trait FileListEnricher {
    /// What an entry becomes.
    spec fn enriched(&self, e: EntryView, node: Node) -> EntryView;

    /// What a list becomes.
    spec fn finalized(&self, items: Seq<ItemView>) -> Seq<ItemView>;

    /// Called for each entry immediately after it is scanned.
    fn enrich(&self, entry: &mut FileEntry, node: &Node)
        ensures
            final(entry)@ == self.enriched(old(entry)@, *node),
    ;

    /// Called once after all entries have been collected.
    fn finalize(&self, items: &mut Vec<FileListItem>)
        ensures
            item_views(final(items)@) == self.finalized(item_views(old(items)@)),
    ;
}

/// Enricher that records symlink targets.
#[derive(Debug, Clone, Copy, PartialEq, Eq, Structural)]
pub struct SymlinkEnricher;

impl SymlinkEnricher {
    pub fn new() -> (r: SymlinkEnricher)
        ensures
            r == SymlinkEnricher,
    {
        SymlinkEnricher
    }
}

impl FileListEnricher for SymlinkEnricher {
    open spec fn enriched(&self, e: EntryView, node: Node) -> EntryView {
        with_target(e, node, true)
    }

    open spec fn finalized(&self, items: Seq<ItemView>) -> Seq<ItemView> {
        items
    }

    fn enrich(&self, entry: &mut FileEntry, node: &Node) {
        add_target(entry, node, true);
    }

    fn finalize(&self, items: &mut Vec<FileListItem>) {
    }
}

/// The entries of items.
pub open spec fn item_entries(items: Seq<ItemView>) -> Seq<EntryView> {
    Seq::new(items.len(), |i: int| items[i].entry)
}

/// All but the first item of each file know the first one's name.
pub open spec fn grouped(items: Seq<ItemView>) -> Seq<ItemView> {
    Seq::new(
        items.len(),
        |i: int| ItemView { entry: grouped_entry(item_entries(items), i), ..items[i] },
    )
}

/// Finalize enricher that groups entries by (dev, ino) for hardlink support.
///
/// All but the first occurrence in each group get their `hlink_source` set to
/// the first entry's name.
#[derive(Debug, Clone, Copy, PartialEq, Eq, Structural)]
pub struct HardLinkGrouper;

impl FileListEnricher for HardLinkGrouper {
    open spec fn enriched(&self, e: EntryView, node: Node) -> EntryView {
        e
    }

    open spec fn finalized(&self, items: Seq<ItemView>) -> Seq<ItemView> {
        grouped(items)
    }

    fn enrich(&self, entry: &mut FileEntry, node: &Node) {
    }

    fn finalize(&self, items: &mut Vec<FileListItem>) {
        group_links(items);
    }
}

fn group_links(items: &mut Vec<FileListItem>)
    ensures
        item_views(final(items)@) == grouped(item_views(old(items)@)),
{
    let ghost all = item_views(items@);
    let ghost es = item_entries(all);
    let n: usize = items.len();
    let mut infos: Vec<Option<HardLinkInfo>> = Vec::new();
    let mut k: usize = 0;
    while k < n
        invariant
            k <= n,
            n == items.len(),
            infos.len() == k,
            all == item_views(items@),
            es == item_entries(all),
            forall|j: int| 0 <= j < k ==> #[trigger] infos@[j] == es[j].hard_link_info,
        decreases n - k,
    {
        assert(items@[k as int]@ == all[k as int]);
        assert(es[k as int] == all[k as int].entry);
        infos.push(items[k].entry.hard_link_info);
        k = k + 1;
    }
    assert(infos@ =~= link_infos(es));
    let names = earlier_names(&infos);
    let mut i: usize = 0;
    while i < n
        invariant
            i <= n,
            n == items.len(),
            n == all.len(),
            n == names.len(),
            es == item_entries(all),
            forall|j: int|
                0 <= j < n ==> (match #[trigger] names@[j] {
                    Some(f) => earlier_name(link_infos(es), j) == Some(f as int) && f < j,
                    None => earlier_name(link_infos(es), j) is None,
                }),
            forall|j: int| 0 <= j < i ==> (#[trigger] items@[j])@ == grouped(all)[j],
            forall|j: int| i <= j < n ==> (#[trigger] items@[j])@ == all[j],
            forall|j: int| 0 <= j < n ==> (#[trigger] items@[j]).entry.name@ == all[j].entry.name,
        decreases n - i,
    {
        assert(items@[i as int]@ == all[i as int]);
        match names[i] {
            Some(f) => {
                let name = copy_bytes(items[f].entry.name.as_slice());
                let item = &mut items[i];
                item.entry.hlink_source = Some(name);
                assert(items@[i as int]@ =~= grouped(all)[i as int]);
            },
            None => {},
        }
        i = i + 1;
    }
    assert(item_views(items@) =~= grouped(all));
}

/// An enricher of the library.
#[derive(Debug, Clone, Copy, PartialEq, Eq, Structural)]
pub enum Enricher {
    Symlinks(SymlinkEnricher),
    HardLinks(HardLinkGrouper),
}

impl FileListEnricher for Enricher {
    open spec fn enriched(&self, e: EntryView, node: Node) -> EntryView {
        match *self {
            Enricher::Symlinks(s) => s.enriched(e, node),
            Enricher::HardLinks(h) => h.enriched(e, node),
        }
    }

    open spec fn finalized(&self, items: Seq<ItemView>) -> Seq<ItemView> {
        match *self {
            Enricher::Symlinks(s) => s.finalized(items),
            Enricher::HardLinks(h) => h.finalized(items),
        }
    }

    fn enrich(&self, entry: &mut FileEntry, node: &Node) {
        match self {
            Enricher::Symlinks(s) => s.enrich(entry, node),
            Enricher::HardLinks(h) => h.enrich(entry, node),
        }
    }

    fn finalize(&self, items: &mut Vec<FileListItem>) {
        match self {
            Enricher::Symlinks(s) => s.finalize(items),
            Enricher::HardLinks(h) => h.finalize(items),
        }
    }
}

/// What the first enrichers make of an entry, one after the other.
pub open spec fn enriched_all<E: FileListEnricher>(
    es: Seq<E>,
    e: EntryView,
    node: Node,
) -> EntryView
    decreases es.len(),
{
    if es.len() == 0 {
        e
    } else {
        es.last().enriched(enriched_all(es.drop_last(), e, node), node)
    }
}

/// Runs enrichers on an entry, one after the other.
pub(crate) fn enrich_all<E: FileListEnricher>(es: &[E], entry: &mut FileEntry, node: &Node)
    ensures
        final(entry)@ == enriched_all(es@, old(entry)@, *node),
{
    let ghost start = entry@;
    let mut i: usize = 0;
    assert(es@.take(0) =~= Seq::empty());
    while i < es.len()
        invariant
            i <= es.len(),
            start == old(entry)@,
            entry@ == enriched_all(es@.take(i as int), start, *node),
        decreases es.len() - i,
    {
        proof {
            assert(es@.take(i + 1).drop_last() =~= es@.take(i as int));
            assert(es@.take(i + 1).last() == es@[i as int]);
        }
        es[i].enrich(entry, node);
        i = i + 1;
    }
    assert(es@.take(i as int) =~= es@);
}

/// The enrichers of a walk that may record targets of links.
pub open spec fn target_stages(wanted: bool) -> Seq<SymlinkEnricher> {
    if wanted {
        seq![SymlinkEnricher]
    } else {
        Seq::empty()
    }
}

/// Makes the enrichers of a walk that may record targets of links.
pub(crate) fn make_target_stages(wanted: bool) -> (r: Vec<SymlinkEnricher>)
    ensures
        r@ == target_stages(wanted),
{
    let mut stages: Vec<SymlinkEnricher> = Vec::new();
    if wanted {
        stages.push(SymlinkEnricher);
    }
    assert(stages@ =~= target_stages(wanted));
    stages
}

/// A list after the first enrichers have finalized it.
pub open spec fn all_finalized<E: FileListEnricher>(es: Seq<E>, items: Seq<ItemView>) -> Seq<ItemView>
    decreases es.len(),
{
    if es.len() == 0 {
        items
    } else {
        es.last().finalized(all_finalized(es.drop_last(), items))
    }
}

// ---------------------------------------------------------------------------
// Scanning
// ---------------------------------------------------------------------------

/// Entries with their groups, where hard links are preserved.
pub open spec fn linked(o: ScanOptions, es: Seq<EntryView>) -> Seq<EntryView> {
    if o.preserve_hard_links {
        grouped_entries(es)
    } else {
        es
    }
}

/// A complete list: as the enrichers leave it, and where hard links are
/// preserved with their groups.
pub open spec fn completed<E: FileListEnricher>(
    o: ScanOptions,
    es: Seq<E>,
    items: Seq<ItemView>,
) -> Seq<ItemView> {
    if o.preserve_hard_links {
        grouped(all_finalized(es, items))
    } else {
        all_finalized(es, items)
    }
}

/// A source of a transfer and what was found there.
#[derive(Debug)]
pub struct Source {
    pub path: Vec<u8>,
    pub found: Result<Node, FsError>,
}

/// The metadata that a scan goes by, or nothing where a broken link is passed
/// over.
pub open spec fn source_meta(s: Source, copy_links: bool) -> Result<
    Option<FileMetadata>,
    FsErrorView,
> {
    match s.found {
        Ok(node) => match walk_meta(node, copy_links) {
            Ok(m) => Ok(Some(m)),
            Err(_) => Ok(None),
        },
        Err(e) => if copy_links {
            Ok(None)
        } else {
            Err(e@)
        },
    }
}

/// How a scan walks.
pub open spec fn scan_plan(o: ScanOptions, m: FileMetadata) -> WalkPlan {
    WalkPlan {
        options: WalkOptions {
            copy_links: o.copy_links,
            one_file_system: o.one_file_system,
            filter_merge_files: o.filter_merge_files,
        },
        root_dev: if o.one_file_system {
            Some(m.dev)
        } else {
            None
        },
        top_enriched: true,
    }
}

/// What a scan yields for one source. Filter rules do not apply to a source
/// that is a directory.
pub open spec fn source_visits<E: FileListEnricher>(
    s: Source,
    rules: Seq<RuleView>,
    o: ScanOptions,
    es: Seq<E>,
) -> Result<Seq<VisitView>, FsErrorView> {
    match source_meta(s, o.copy_links) {
        Err(e) => Err(e),
        Ok(None) => Ok(Seq::empty()),
        Ok(Some(m)) => {
            let name = entry_name_of(s.path@, o.relative);
            let node = s.found->Ok_0;
            if is_directory(m) {
                match o.dir_mode {
                    DirectoryMode::Recurse => visits(
                        node,
                        if o.relative {
                            name
                        } else {
                            Seq::empty()
                        },
                        rules,
                        scan_plan(o, m),
                        true,
                        es,
                    ),
                    DirectoryMode::List => Ok(
                        seq![
                            VisitView {
                                entry: enriched_all(es, entry_for(m, name), node),
                                path: s.path@,
                            },
                        ],
                    ),
                    DirectoryMode::Skip => Ok(Seq::empty()),
                }
            } else if !passes(rules, name, false) {
                Ok(Seq::empty())
            } else {
                Ok(
                    seq![
                        VisitView {
                            entry: enriched_all(es, entry_for(m, name), node),
                            path: s.path@,
                        },
                    ],
                )
            }
        },
    }
}

/// What a scan yields for the first sources.
pub open spec fn scanned<E: FileListEnricher>(
    sources: Seq<Source>,
    rules: Seq<RuleView>,
    o: ScanOptions,
    es: Seq<E>,
) -> Result<Seq<VisitView>, FsErrorView>
    decreases sources.len(),
{
    if sources.len() == 0 {
        Ok(Seq::empty())
    } else {
        match scanned(sources.drop_last(), rules, o, es) {
            Err(e) => Err(e),
            Ok(before) => match source_visits(sources.last(), rules, o, es) {
                Err(e) => Err(e),
                Ok(more) => Ok(before + more),
            },
        }
    }
}

/// The filter rules that are in force when a scan fails at a source.
pub open spec fn source_left<E: FileListEnricher>(
    s: Source,
    f: RuleListView,
    o: ScanOptions,
    es: Seq<E>,
) -> RuleListView {
    match source_meta(s, o.copy_links) {
        Ok(Some(m)) => left(
            s.found->Ok_0,
            if o.relative {
                entry_name_of(s.path@, o.relative)
            } else {
                Seq::empty()
            },
            f,
            scan_plan(o, m),
            true,
            es,
        ).1,
        _ => f,
    }
}

/// The filter rules that are in force when a scan fails.
pub open spec fn scan_left<E: FileListEnricher>(
    sources: Seq<Source>,
    f: RuleListView,
    o: ScanOptions,
    es: Seq<E>,
) -> RuleListView
    decreases sources.len(),
{
    if sources.len() == 0 {
        f
    } else if scanned(sources.drop_last(), f.rules, o, es) is Err {
        scan_left(sources.drop_last(), f, o, es)
    } else {
        source_left(sources.last(), f, o, es)
    }
}

proof fn scan_error_stays<E: FileListEnricher>(
    sources: Seq<Source>,
    n: int,
    f: RuleListView,
    o: ScanOptions,
    es: Seq<E>,
)
    requires
        0 <= n <= sources.len(),
        scanned(sources.take(n), f.rules, o, es) is Err,
    ensures
        scanned(sources, f.rules, o, es) == scanned(sources.take(n), f.rules, o, es),
        scan_left(sources, f, o, es) == scan_left(sources.take(n), f, o, es),
    decreases sources.len() - n,
{
    if n == sources.len() {
        assert(sources.take(n) =~= sources);
    } else {
        assert(sources.take(n + 1).drop_last() =~= sources.take(n));
        scan_error_stays(sources, n + 1, f, o, es);
    }
}

/// Visits as items, numbered from the start of the list.
pub open spec fn numbered(v: Seq<VisitView>) -> Seq<ItemView> {
    Seq::new(
        v.len(),
        |i: int| ItemView { index: i as i32, entry: v[i].entry, source_path: v[i].path },
    )
}

/// The items that a scan gives.
pub open spec fn scanned_items<E: FileListEnricher>(
    sources: Seq<Source>,
    rules: Seq<RuleView>,
    o: ScanOptions,
    es: Seq<E>,
) -> Result<Seq<ItemView>, FsErrorView> {
    match scanned(sources, rules, o, es) {
        Ok(v) => Ok(completed(o, es, numbered(v))),
        Err(e) => Err(e),
    }
}

/// The entries that a scan without source paths gives.
pub open spec fn scanned_entries<E: FileListEnricher>(
    sources: Seq<Source>,
    rules: Seq<RuleView>,
    o: ScanOptions,
    es: Seq<E>,
) -> Result<Seq<EntryView>, FsErrorView> {
    match scanned(sources, rules, o, es) {
        Ok(v) => Ok(linked(o, visit_entries(v))),
        Err(e) => Err(e),
    }
}

/// No enricher changes a complete list.
pub open spec fn leave_lists<E: FileListEnricher>(es: Seq<E>) -> bool {
    forall|i: int, items: Seq<ItemView>|
        0 <= i < es.len() ==> #[trigger] es[i].finalized(items) == items
}

/// A scan gives the same entries in the same order with and without source
/// paths, and fails with the same error, where no enricher changes a complete
/// list.
pub proof fn scans_agree<E: FileListEnricher>(
    sources: Seq<Source>,
    rules: Seq<RuleView>,
    o: ScanOptions,
    es: Seq<E>,
)
    requires
        leave_lists(es),
    ensures
        match scanned_items(sources, rules, o, es) {
            Ok(items) => scanned_entries(sources, rules, o, es) == Ok::<
                Seq<EntryView>,
                FsErrorView,
            >(item_entries(items)),
            Err(e) => scanned_entries(sources, rules, o, es) == Err::<
                Seq<EntryView>,
                FsErrorView,
            >(e),
        },
{
    match scanned(sources, rules, o, es) {
        Ok(v) => {
            lists_are_left(es, numbered(v));
            assert(item_entries(numbered(v)) =~= visit_entries(v));
            assert(item_entries(grouped(numbered(v))) =~= grouped_entries(visit_entries(v)));
        },
        Err(_) => {},
    }
}

proof fn lists_are_left<E: FileListEnricher>(es: Seq<E>, items: Seq<ItemView>)
    requires
        leave_lists(es),
    ensures
        all_finalized(es, items) == items,
    decreases es.len(),
{
    if es.len() > 0 {
        let h = es.drop_last();
        assert forall|i: int, x: Seq<ItemView>| 0 <= i < h.len() implies #[trigger] h[i].finalized(
            x,
        ) == x by {
            assert(es[i].finalized(x) == x);
        }
        lists_are_left(h, items);
        assert(es[es.len() - 1].finalized(items) == items);
    }
}

pub(crate) fn number_items(found: Vec<Visit>) -> (r: Vec<FileListItem>)
    ensures
        item_views(r@) == numbered(visit_views(found@)),
{
    let ghost all = visit_views(found@);
    let total: usize = found.len();
    let mut found = found;
    let mut rest: Vec<Visit> = Vec::new();
    while found.len() > 0
        invariant
            found.len() + rest.len() == all.len(),
            forall|j: int| 0 <= j < found.len() ==> (#[trigger] found@[j])@ == all[j],
            forall|j: int|
                0 <= j < rest.len() ==> (#[trigger] rest@[j])@ == all[all.len() - 1 - j],
        decreases found.len(),
    {
        let ghost n = found@.len();
        let v = found.pop().unwrap();
        assert(v@ == all[n - 1]);
        rest.push(v);
    }
    let mut out: Vec<FileListItem> = Vec::new();
    let mut k: usize = 0;
    while rest.len() > 0
        invariant
            k == out.len(),
            k + rest.len() == all.len(),
            all.len() == total,
            forall|j: int| 0 <= j < k ==> (#[trigger] out@[j])@ == numbered(all)[j],
            forall|j: int|
                0 <= j < rest.len() ==> (#[trigger] rest@[j])@ == all[all.len() - 1 - j],
        decreases rest.len(),
    {
        let v = rest.pop().unwrap();
        assert(v@ == all[k as int]);
        out.push(FileListItem { index: k as i32, entry: v.entry, source_path: v.path });
        k = k + 1;
    }
    assert(item_views(out@) =~= numbered(all));
    out
}

/// Composable file list scanner.
///
/// Its enrichers are of one type: [`Enricher`] where those of the library do, or
/// a type that stands for others as well.
#[derive(Debug)]
pub struct FileListScanner<E> {
    options: ScanOptions,
    enrichers: Vec<E>,
}

impl FileListScanner<Enricher> {
    /// Create a new scanner with the given options, for enrichers of the
    /// library.
    pub fn new(options: ScanOptions) -> (r: FileListScanner<Enricher>)
        ensures
            r.opts() == options,
            r.pipeline() == Seq::<Enricher>::empty(),
    {
        FileListScanner { options, enrichers: Vec::new() }
    }
}

impl<E: FileListEnricher> FileListScanner<E> {
    /// The options of the scanner.
    pub closed spec fn opts(&self) -> ScanOptions {
        self.options
    }

    /// The enrichers of the scanner.
    pub closed spec fn pipeline(&self) -> Seq<E> {
        self.enrichers@
    }

    /// Create a new scanner with the given options and enrichers of any kind.
    pub fn with_enrichers(options: ScanOptions, enrichers: Vec<E>) -> (r: FileListScanner<E>)
        ensures
            r.opts() == options,
            r.pipeline() == enrichers@,
    {
        FileListScanner { options, enrichers }
    }

    /// Add an enricher to the pipeline.
    pub fn add_enricher(&mut self, enricher: E)
        ensures
            final(self).opts() == old(self).opts(),
            final(self).pipeline() == old(self).pipeline().push(enricher),
    {
        self.enrichers.push(enricher);
    }

    fn visit_source(
        &self,
        source: &Source,
        out: &mut Vec<Visit>,
        filters: &mut FilterRuleList,
    ) -> (r: Result<(), FsError>)
        ensures
            crate::filelist::walk::walked(
                visit_views(old(out)@),
                visit_views(final(out)@),
                source_visits(
                    *source,
                    old(filters)@.rules,
                    self.opts(),
                    self.pipeline(),
                ),
                r,
            ),
            final(filters)@ == (match r {
                Ok(_) => old(filters)@,
                Err(_) => source_left(
                    *source,
                    old(filters)@,
                    self.opts(),
                    self.pipeline(),
                ),
            }),
    {
        let ghost before = visit_views(out@);
        assert(before + Seq::<VisitView>::empty() =~= before);
        let node = match &source.found {
            Ok(n) => n,
            Err(e) => {
                if self.options.copy_links {
                    return Ok(());
                }
                return Err(e.clone());
            },
        };
        let m: FileMetadata = if self.options.copy_links {
            match &node.followed {
                Ok(m) => *m,
                Err(_) => {
                    return Ok(());
                },
            }
        } else {
            node.meta
        };
        let name = compute_entry_name(source.path.as_slice(), self.options.relative);
        if m.is_dir() {
            match self.options.dir_mode {
                DirectoryMode::Recurse => {
                    let plan = WalkPlan {
                        options: WalkOptions {
                            copy_links: self.options.copy_links,
                            one_file_system: self.options.one_file_system,
                            filter_merge_files: self.options.filter_merge_files,
                        },
                        root_dev: if self.options.one_file_system {
                            Some(m.dev)
                        } else {
                            None
                        },
                        top_enriched: true,
                    };
                    let prefix: Vec<u8> = if self.options.relative {
                        name
                    } else {
                        Vec::new()
                    };
                    proof {
                        if !self.options.relative {
                            assert(prefix@ =~= Seq::<u8>::empty());
                        }
                    }
                    return walk(
                        node,
                        prefix.as_slice(),
                        out,
                        filters,
                        plan,
                        true,
                        self.enrichers.as_slice(),
                    );
                },
                DirectoryMode::List => {
                    let mut entry = m.to_file_entry(name);
                    enrich_all(self.enrichers.as_slice(), &mut entry, node);
                    let visit = Visit { entry, path: copy_bytes(source.path.as_slice()) };
                    let ghost vv = visit@;
                    out.push(visit);
                    assert(visit_views(out@) =~= before + seq![vv]);
                },
                DirectoryMode::Skip => {},
            }
            return Ok(());
        }
        if filters.is_included(name.as_slice(), false) {
            let mut entry = m.to_file_entry(name);
            enrich_all(self.enrichers.as_slice(), &mut entry, node);
            let visit = Visit { entry, path: copy_bytes(source.path.as_slice()) };
            let ghost vv = visit@;
            out.push(visit);
            assert(visit_views(out@) =~= before + seq![vv]);
        }
        Ok(())
    }

    fn visit_sources(
        &self,
        sources: &[Source],
        filters: &mut FilterRuleList,
    ) -> (r: Result<Vec<Visit>, FsError>)
        ensures
            match r {
                Ok(v) => scanned(
                    sources@,
                    old(filters)@.rules,
                    self.opts(),
                    self.pipeline(),
                ) == Ok::<Seq<VisitView>, FsErrorView>(visit_views(v@)) && final(filters)@ == old(
                    filters,
                )@,
                Err(e) => scanned(
                    sources@,
                    old(filters)@.rules,
                    self.opts(),
                    self.pipeline(),
                ) == Err::<Seq<VisitView>, FsErrorView>(e@) && final(filters)@ == scan_left(
                    sources@,
                    old(filters)@,
                    self.opts(),
                    self.pipeline(),
                ),
            },
    {
        let ghost rules = filters@.rules;
        let ghost had = filters@;
        let ghost o = self.opts();
        let ghost es = self.pipeline();
        let mut out: Vec<Visit> = Vec::new();
        let mut i: usize = 0;
        assert(visit_views(out@) =~= Seq::empty());
        assert(sources@.take(0) =~= Seq::empty());
        while i < sources.len()
            invariant
                i <= sources.len(),
                filters@ == had,
                rules == had.rules,
                had == old(filters)@,
                o == self.opts(),
                es == self.pipeline(),
                scanned(sources@.take(i as int), rules, o, es) == Ok::<
                    Seq<VisitView>,
                    FsErrorView,
                >(visit_views(out@)),
            decreases sources.len() - i,
        {
            proof {
                assert(sources@.take(i + 1).drop_last() =~= sources@.take(i as int));
                assert(sources@.take(i + 1).last() == sources@[i as int]);
            }
            match self.visit_source(&sources[i], &mut out, filters) {
                Ok(_) => {},
                Err(e) => {
                    proof {
                        scan_error_stays(sources@, i + 1, had, o, es);
                    }
                    return Err(e);
                },
            }
            i = i + 1;
        }
        assert(sources@.take(i as int) =~= sources@);
        Ok(out)
    }

    /// Scan multiple sources and return a unified file list.
    ///
    /// Top-level directory sources are not filtered; other sources are.
    pub fn scan(&self, sources: &[Source], filters: &mut FilterRuleList) -> (r: Result<
        Vec<FileListItem>,
        FsError,
    >)
        ensures
            ({
                let want = scanned_items(
                    sources@,
                    old(filters)@.rules,
                    self.opts(),
                    self.pipeline(),
                );
                match r {
                    Ok(items) => want == Ok::<Seq<ItemView>, FsErrorView>(item_views(items@))
                        && final(filters)@ == old(filters)@,
                    Err(e) => want == Err::<Seq<ItemView>, FsErrorView>(e@) && final(filters)@
                        == scan_left(sources@, old(filters)@, self.opts(), self.pipeline()),
                }
            }),
    {
        let found = match self.visit_sources(sources, filters) {
            Ok(v) => v,
            Err(e) => {
                return Err(e);
            },
        };
        let ghost start = numbered(visit_views(found@));
        let ghost es = self.pipeline();
        let mut items = number_items(found);
        let mut i: usize = 0;
        assert(es.take(0) =~= Seq::empty());
        while i < self.enrichers.len()
            invariant
                i <= self.enrichers.len(),
                es == self.enrichers@,
                item_views(items@) == all_finalized(es.take(i as int), start),
            decreases self.enrichers.len() - i,
        {
            proof {
                assert(es.take(i + 1).drop_last() =~= es.take(i as int));
                assert(es.take(i + 1).last() == self.enrichers@[i as int]);
            }
            self.enrichers[i].finalize(&mut items);
            i = i + 1;
        }
        assert(es.take(i as int) =~= es);
        if self.options.preserve_hard_links {
            group_links(&mut items);
        }
        Ok(items)
    }

    /// Scan sources and return `FileEntry` entries (no source paths).
    pub fn scan_entries(&self, sources: &[Source], filters: &mut FilterRuleList) -> (r: Result<
        Vec<FileEntry>,
        FsError,
    >)
        ensures
            ({
                let want = scanned_entries(
                    sources@,
                    old(filters)@.rules,
                    self.opts(),
                    self.pipeline(),
                );
                match r {
                    Ok(entries) => want == Ok::<Seq<EntryView>, FsErrorView>(
                        entry_views(entries@),
                    ) && final(filters)@ == old(filters)@,
                    Err(e) => want == Err::<Seq<EntryView>, FsErrorView>(e@) && final(filters)@
                        == scan_left(sources@, old(filters)@, self.opts(), self.pipeline()),
                }
            }),
    {
        match self.visit_sources(sources, filters) {
            Ok(v) => {
                let mut entries: Vec<FileEntry> = Vec::new();
                assert(entry_views(entries@) =~= Seq::empty());
                let ghost want = visit_entries(visit_views(v@));
                push_entries(&mut entries, v);
                assert(entry_views(entries@) =~= want);
                if self.options.preserve_hard_links {
                    group_entries(&mut entries);
                }
                Ok(entries)
            },
            Err(e) => Err(e),
        }
    }

    /// Scan a single path into `FileEntry` entries.
    ///
    /// A directory is walked where directories are recursed into; else it is
    /// listed, with what it holds besides directories. Whether links are followed
    /// and their targets recorded, and whether hard links are grouped, is decided
    /// as in any scan.
    pub fn scan_directory(
        &self,
        found: &Result<Node, FsError>,
        path: &[u8],
        filters: &mut FilterRuleList,
    ) -> (r: Result<Vec<FileEntry>, FsError>)
        ensures
            ({
                let want = directory_entries(
                    *found,
                    path@,
                    old(filters)@.rules,
                    self.opts(),
                    self.pipeline(),
                );
                match r {
                    Ok(entries) => want == Ok::<Seq<EntryView>, FsErrorView>(
                        entry_views(entries@),
                    ) && final(filters)@ == old(filters)@,
                    Err(e) => want == Err::<Seq<EntryView>, FsErrorView>(e@) && final(filters)@
                        == directory_left(*found, old(filters)@, self.opts(), self.pipeline()),
                }
            }),
    {
        let mut entries = match self.visit_directory(found, path, filters) {
            Ok(e) => e,
            Err(e) => {
                return Err(e);
            },
        };
        if self.options.preserve_hard_links {
            group_entries(&mut entries);
        }
        Ok(entries)
    }

    fn visit_directory(
        &self,
        found: &Result<Node, FsError>,
        path: &[u8],
        filters: &mut FilterRuleList,
    ) -> (r: Result<Vec<FileEntry>, FsError>)
        ensures
            ({
                let want = directory_found(
                    *found,
                    path@,
                    old(filters)@.rules,
                    self.opts(),
                    self.pipeline(),
                );
                match r {
                    Ok(entries) => want == Ok::<Seq<EntryView>, FsErrorView>(
                        entry_views(entries@),
                    ) && final(filters)@ == old(filters)@,
                    Err(e) => want == Err::<Seq<EntryView>, FsErrorView>(e@) && final(filters)@
                        == directory_left(*found, old(filters)@, self.opts(), self.pipeline()),
                }
            }),
    {
        let node = match found {
            Ok(n) => n,
            Err(e) => {
                return Err(e.clone());
            },
        };
        let m: FileMetadata = match meta_of(node, self.options.copy_links) {
            Ok(m) => m,
            Err(e) => {
                return Err(e);
            },
        };
        let mut entries: Vec<FileEntry> = Vec::new();
        assert(entry_views(entries@) =~= Seq::empty());
        if !m.is_dir() {
            let name: Vec<u8> = match path_file_name(path) {
                Some(n) => n,
                None => Vec::new(),
            };
            let mut e = m.to_file_entry(name);
            enrich_all(self.enrichers.as_slice(), &mut e, node);
            let ghost ev = e@;
            entries.push(e);
            assert(entry_views(entries@) =~= seq![ev]);
            return Ok(entries);
        }
        match self.options.dir_mode {
            DirectoryMode::Recurse => {
                let plan = WalkPlan {
                    options: WalkOptions {
                        copy_links: self.options.copy_links,
                        one_file_system: self.options.one_file_system,
                        filter_merge_files: self.options.filter_merge_files,
                    },
                    root_dev: if self.options.one_file_system {
                        Some(m.dev)
                    } else {
                        None
                    },
                    top_enriched: true,
                };
                let none: Vec<u8> = Vec::new();
                assert(none@ =~= Seq::<u8>::empty());
                let mut out: Vec<Visit> = Vec::new();
                assert(visit_views(out@) =~= Seq::empty());
                match walk(
                    node,
                    none.as_slice(),
                    &mut out,
                    filters,
                    plan,
                    true,
                    self.enrichers.as_slice(),
                ) {
                    Ok(_) => {},
                    Err(e) => {
                        return Err(e);
                    },
                }
                proof {
                    let w = visits(
                        *node,
                        Seq::empty(),
                        old(filters)@.rules,
                        plan,
                        true,
                        self.pipeline(),
                    )->Ok_0;
                    assert(visit_views(out@) =~= w);
                }
                let ghost want = visit_entries(visit_views(out@));
                push_entries(&mut entries, out);
                assert(entry_views(entries@) =~= want);
                Ok(entries)
            },
            _ => {
                let nodes = match &node.children {
                    Ok(n) => n,
                    Err(e) => {
                        return Err(e.clone());
                    },
                };
                let mut dot: Vec<u8> = Vec::new();
                dot.push(0x2E);
                assert(dot@ =~= seq![0x2Eu8]);
                let mut own = m.to_file_entry(dot);
                enrich_all(self.enrichers.as_slice(), &mut own, node);
                let ghost ov = own@;
                entries.push(own);
                assert(entry_views(entries@) =~= seq![ov]);
                push_listed(
                    &mut entries,
                    nodes,
                    filters,
                    self.options.copy_links,
                    self.enrichers.as_slice(),
                );
                Ok(entries)
            },
        }
    }
}

/// What a directory holds besides directories, by name.
pub open spec fn listed<E: FileListEnricher>(
    nodes: Seq<Node>,
    n: nat,
    rules: Seq<RuleView>,
    copy_links: bool,
    es: Seq<E>,
) -> Seq<EntryView>
    decreases n,
{
    if n == 0 {
        Seq::empty()
    } else {
        let before = listed(nodes, (n - 1) as nat, rules, copy_links, es);
        let child = nodes[name_order(node_names(nodes))[n - 1] as int];
        match walk_meta(child, copy_links) {
            Err(_) => before,
            Ok(m) => if passes(rules, child.name@, is_directory(m)) && !is_directory(m) {
                before.push(enriched_all(es, entry_for(m, child.name@), child))
            } else {
                before
            },
        }
    }
}

/// The entries of a single path, with their groups where hard links are
/// preserved.
pub open spec fn directory_entries<E: FileListEnricher>(
    found: Result<Node, FsError>,
    path: Seq<u8>,
    rules: Seq<RuleView>,
    o: ScanOptions,
    es: Seq<E>,
) -> Result<Seq<EntryView>, FsErrorView> {
    match directory_found(found, path, rules, o, es) {
        Ok(entries) => Ok(linked(o, entries)),
        Err(e) => Err(e),
    }
}

/// What is found at a single path.
pub open spec fn directory_found<E: FileListEnricher>(
    found: Result<Node, FsError>,
    path: Seq<u8>,
    rules: Seq<RuleView>,
    o: ScanOptions,
    es: Seq<E>,
) -> Result<Seq<EntryView>, FsErrorView> {
    match found {
        Err(e) => Err(e@),
        Ok(node) => match walk_meta(node, o.copy_links) {
            Err(e) => Err(e),
            Ok(m) => if !is_directory(m) {
                let name = match file_name_of(path) {
                    Some(n) => n,
                    None => Seq::empty(),
                };
                Ok(seq![enriched_all(es, entry_for(m, name), node)])
            } else if o.dir_mode == DirectoryMode::Recurse {
                match visits(node, Seq::empty(), rules, scan_plan(o, m), true, es) {
                    Ok(v) => Ok(visit_entries(v)),
                    Err(e) => Err(e),
                }
            } else {
                match node.children {
                    Err(e) => Err(e@),
                    Ok(nodes) => Ok(
                        seq![enriched_all(es, entry_for(m, seq![0x2Eu8]), node)] + listed(
                            nodes@,
                            nodes@.len(),
                            rules,
                            o.copy_links,
                            es,
                        ),
                    ),
                }
            },
        },
    }
}

/// The filter rules that are in force when the scan of a single path fails.
pub open spec fn directory_left<E: FileListEnricher>(
    found: Result<Node, FsError>,
    f: RuleListView,
    o: ScanOptions,
    es: Seq<E>,
) -> RuleListView {
    match found {
        Ok(node) => match walk_meta(node, o.copy_links) {
            Ok(m) => if is_directory(m) && o.dir_mode == DirectoryMode::Recurse {
                left(node, Seq::empty(), f, scan_plan(o, m), true, es).1
            } else {
                f
            },
            Err(_) => f,
        },
        Err(_) => f,
    }
}

fn push_listed<E: FileListEnricher>(
    entries: &mut Vec<FileEntry>,
    nodes: &Vec<Node>,
    filters: &FilterRuleList,
    copy_links: bool,
    enrichers: &[E],
)
    ensures
        entry_views(final(entries)@) == entry_views(old(entries)@) + listed(
            nodes@,
            nodes@.len(),
            filters@.rules,
            copy_links,
            enrichers@,
        ),
{
    let ghost had = entry_views(entries@);
    let ghost rules = filters@.rules;
    let mut names: Vec<&[u8]> = Vec::new();
    let mut k: usize = 0;
    while k < nodes.len()
        invariant
            k <= nodes.len(),
            names.len() == k,
            forall|j: int| 0 <= j < k ==> (#[trigger] names@[j])@ == nodes@[j].name@,
        decreases nodes.len() - k,
    {
        names.push(nodes[k].name.as_slice());
        k = k + 1;
    }
    assert(views(names@) =~= node_names(nodes@));
    let order = order_of_names(&names);
    let mut n: usize = 0;
    assert(had + Seq::<EntryView>::empty() =~= had);
    while n < order.len()
        invariant
            n <= order.len(),
            order.len() == nodes.len(),
            order@ == name_order(node_names(nodes@)),
            forall|j: int| 0 <= j < order.len() ==> (#[trigger] order@[j]) < nodes.len(),
            rules == filters@.rules,
            entry_views(entries@) == had + listed(nodes@, n as nat, rules, copy_links, enrichers@),
        decreases order.len() - n,
    {
        let i: usize = order[n];
        assert(order@[n as int] < nodes.len());
        let child = &nodes[i];
        let ghost before = listed(nodes@, n as nat, rules, copy_links, enrichers@);
        match meta_of(child, copy_links) {
            Ok(m) => {
                let is_dir = m.is_dir();
                if filters.is_included(child.name.as_slice(), is_dir) && !is_dir {
                    let mut e = m.to_file_entry(copy_bytes(child.name.as_slice()));
                    enrich_all(enrichers, &mut e, child);
                    let ghost ev = e@;
                    let ghost now = entry_views(entries@);
                    entries.push(e);
                    assert(entry_views(entries@) =~= now.push(ev));
                    assert(now.push(ev) =~= had + before.push(ev));
                }
            },
            Err(_) => {},
        }
        n = n + 1;
    }
}

// ---------------------------------------------------------------------------
// Lists of files
// ---------------------------------------------------------------------------

/// The names in a text from a place on, one on a line, that filter rules let
/// pass; empty lines are none.
pub open spec fn names_in(s: Seq<char>, i: int, rules: Seq<RuleView>) -> Seq<Seq<u8>>
    decreases s.len() + 1 - i,
{
    if i < 0 || i >= s.len() {
        Seq::empty()
    } else {
        proof {
            line_end_bound(s, i);
        }
        let e = line_end(s, i);
        let line = trimmed(s.subrange(i, e));
        let rest = names_in(s, e + 1, rules);
        let name = encode_utf8(line);
        if line.len() > 0 && passes(rules, name, false) {
            seq![name] + rest
        } else {
            rest
        }
    }
}

/// The names in a `--files-from` file, one on a line.
pub fn files_from_names(content: &[u8], filters: &FilterRuleList) -> (r: Vec<Vec<u8>>)
    ensures
        crate::options::path_views(r@) == names_in(lossy_text(content@), 0, filters@.rules),
{
    let text = lossy_string(content);
    let chars = to_chars(text.as_str());
    let ghost s = lossy_text(content@);
    let ghost rules = filters@.rules;
    let ghost all = names_in(s, 0, rules);
    let mut out: Vec<Vec<u8>> = Vec::new();
    let mut i: usize = 0;
    proof {
        assert(crate::options::path_views(out@) =~= Seq::empty());
        assert(Seq::<Seq<u8>>::empty() + all =~= all);
    }
    while i < chars.len()
        invariant
            i <= chars.len(),
            chars@ == s,
            s == lossy_text(content@),
            rules == filters@.rules,
            all == names_in(s, 0, rules),
            all == crate::options::path_views(out@) + names_in(s, i as int, rules),
        decreases chars.len() - i,
    {
        let start: usize = i;
        proof {
            line_end_bound(s, start as int);
        }
        while i < chars.len() && chars[i] != '\n'
            invariant
                start <= i <= chars.len(),
                chars@ == s,
                line_end(s, start as int) == line_end(s, i as int),
            decreases chars.len() - i,
        {
            i = i + 1;
        }
        let line = trim(vstd::slice::slice_subrange(chars.as_slice(), start, i));
        let ghost had = crate::options::path_views(out@);
        let ghost rest = names_in(s, i + 1, rules);
        if line.len() > 0 {
            let name_text = from_chars(line);
            let name = copy_bytes(name_text.as_str().as_bytes());
            if filters.is_included(name.as_slice(), false) {
                let ghost nv = name@;
                out.push(name);
                assert(crate::options::path_views(out@) =~= had.push(nv));
                assert(had + (seq![nv] + rest) =~= had.push(nv) + rest);
            }
        }
        if i == chars.len() {
            assert(rest =~= Seq::<Seq<u8>>::empty());
            assert(crate::options::path_views(out@) + rest =~= crate::options::path_views(out@));
            return out;
        }
        i = i + 1;
    }
    assert(crate::options::path_views(out@) + Seq::<Seq<u8>>::empty()
        =~= crate::options::path_views(out@));
    out
}

/// The entries of listed files that exist, with where they are.
pub open spec fn listed_items(
    base: Seq<u8>,
    names: Seq<Seq<u8>>,
    metas: Seq<Option<FileMetadata>>,
) -> Seq<VisitView>
    decreases names.len(),
{
    if names.len() == 0 {
        Seq::empty()
    } else {
        let before = listed_items(base, names.drop_last(), metas);
        match metas[names.len() - 1] {
            Some(m) => before.push(
                VisitView { entry: entry_for(m, names.last()), path: joined(base, names.last()) },
            ),
            None => before,
        }
    }
}

/// Build a file list from the names of a `--files-from` file.
///
/// Each name is resolved against the first source path. `metas` is what was
/// found there; files that are missing are passed over.
pub fn build_file_list_from_file(
    source_paths: &[Vec<u8>],
    names: &Vec<Vec<u8>>,
    metas: &[Option<FileMetadata>],
) -> (r: Result<Vec<FileListItem>, FsError>)
    requires
        names.len() == metas.len(),
    ensures
        match r {
            Ok(items) => source_paths@.len() > 0 && item_views(items@) == numbered(
                listed_items(source_paths@[0]@, crate::options::path_views(names@), metas@),
            ),
            Err(e) => source_paths@.len() == 0 && e@ == (FsErrorView::NotFound {
                path: encode_utf8("<no source>"@),
            }),
        },
{
    if source_paths.len() == 0 {
        return Err(FsError::NotFound { path: copy_bytes("<no source>".as_bytes()) });
    }
    let base = source_paths[0].as_slice();
    let ghost all = crate::options::path_views(names@);
    let mut out: Vec<Visit> = Vec::new();
    let mut i: usize = 0;
    assert(visit_views(out@) =~= listed_items(base@, all.take(0), metas@));
    while i < names.len()
        invariant
            i <= names.len(),
            names.len() == metas.len(),
            all == crate::options::path_views(names@),
            visit_views(out@) == listed_items(base@, all.take(i as int), metas@),
        decreases names.len() - i,
    {
        proof {
            assert(all.take(i + 1).drop_last() =~= all.take(i as int));
            assert(all.take(i + 1).last() == names@[i as int]@);
        }
        let ghost had = visit_views(out@);
        match metas[i] {
            Some(m) => {
                let name = names[i].as_slice();
                let visit = Visit {
                    entry: m.to_file_entry(copy_bytes(name)),
                    path: join_path(base, name),
                };
                let ghost vv = visit@;
                out.push(visit);
                assert(visit_views(out@) =~= had.push(vv));
            },
            None => {},
        }
        i = i + 1;
    }
    assert(all.take(i as int) =~= all);
    Ok(number_items(out))
}

} // verus!

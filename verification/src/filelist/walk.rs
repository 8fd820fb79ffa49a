//! Directory walks for building file lists.
//!
//! A walk goes over a tree as it was found on disk and turns it into entries:
//! the directory first, then what it holds, sorted by name, with directories
//! descended into. Filter rules decide what takes part.

use vstd::prelude::*;

use crate::error::{FsError, FsErrorView};
use crate::filelist::entry::{
    copy_bytes, entry_views, file_type, EntryView, FileEntry, WIRE_S_IFLNK,
};
use crate::filelist::scanner::{
    enrich_all, enriched_all, make_target_stages, target_stages, FileListEnricher,
};
use crate::filter::rule::{
    passes, rule_views, rule_with, scope_begun, scope_restores, FilterAction, FilterRule,
    FilterRuleList, RuleListView, RuleView,
};
use crate::fs::metadata::{entry_for, is_directory, FileMetadata};
use crate::order::{name_order, order_of_names, views};

verus! {

/// What was found at a path.
#[derive(Debug)]
pub struct Node {
    /// The last component of the path.
    pub name: Vec<u8>,
    /// The path.
    pub path: Vec<u8>,
    /// Metadata, links not followed.
    pub meta: FileMetadata,
    /// Metadata, links followed; a link may lead nowhere.
    pub followed: Result<FileMetadata, FsError>,
    /// The device that holds it, where that is known.
    pub device: Option<u64>,
    /// The target of a link, where it could be read.
    pub target: Option<Vec<u8>>,
    /// The rules of the directory's own filter file, where it has one.
    pub rules: Option<Vec<FilterRule>>,
    /// What the directory holds, where it could be read.
    pub children: Result<Vec<Node>, FsError>,
}

/// Options controlling directory walk behavior.
#[derive(Debug, Clone, Copy, PartialEq, Eq, Structural)]
pub struct WalkOptions {
    /// Follow symlinks during scan (`-L`).
    pub copy_links: bool,
    /// Don't cross filesystem boundaries (`-x`). A walk goes by the device that
    /// its plan names.
    pub one_file_system: bool,
    /// Per-directory .rsync-filter merge level: 0=off, 1=-F, 2=-FF.
    pub filter_merge_files: u8,
}

/// How a walk goes, besides its options.
#[derive(Debug, Clone, Copy, PartialEq, Eq, Structural)]
pub struct WalkPlan {
    pub options: WalkOptions,
    /// The device to stay on.
    pub root_dev: Option<u64>,
    /// Whether the directory at the top is enriched, too.
    pub top_enriched: bool,
}

/// An entry and where it was found.
#[derive(Debug)]
pub struct Visit {
    pub entry: FileEntry,
    pub path: Vec<u8>,
}

/// The view of a [`Visit`].
#[verifier::ext_equal]
pub struct VisitView {
    pub entry: EntryView,
    pub path: Seq<u8>,
}

impl View for Visit {
    type V = VisitView;

    open spec fn view(&self) -> VisitView {
        VisitView { entry: self.entry@, path: self.path@ }
    }
}

/// The views of visits.
pub open spec fn visit_views(s: Seq<Visit>) -> Seq<VisitView> {
    Seq::new(s.len(), |i: int| s[i]@)
}

// ---------------------------------------------------------------------------
// What a walk yields
// ---------------------------------------------------------------------------

/// A name below a prefix.
pub open spec fn name_below(prefix: Seq<u8>, name: Seq<u8>) -> Seq<u8> {
    if prefix.len() == 0 {
        name
    } else {
        prefix + seq![0x2Fu8] + name
    }
}

/// The name of the directory at a prefix.
pub open spec fn dir_name(prefix: Seq<u8>) -> Seq<u8> {
    if prefix.len() == 0 {
        seq![0x2Eu8]
    } else {
        prefix
    }
}

/// An entry with the target of the link that it is.
pub open spec fn with_target(e: EntryView, node: Node, wanted: bool) -> EntryView {
    if wanted && file_type(e.mode) == WIRE_S_IFLNK {
        EntryView {
            link_target: match node.target {
                Some(t) => t@,
                None => Seq::empty(),
            },
            ..e
        }
    } else {
        e
    }
}

/// The metadata that a walk goes by.
pub open spec fn walk_meta(node: Node, copy_links: bool) -> Result<FileMetadata, FsErrorView> {
    if copy_links {
        match node.followed {
            Ok(m) => Ok(m),
            Err(e) => Err(e@),
        }
    } else {
        Ok(node.meta)
    }
}

/// The rule that hides the filter files themselves.
pub open spec fn hiding_rule() -> Seq<RuleView> {
    match rule_with(FilterAction::Exclude, ".rsync-filter"@) {
        Ok(r) => seq![r],
        Err(_) => Seq::empty(),
    }
}

/// The rules that a directory adds while it is walked.
pub open spec fn own_rules(node: Node, level: u8) -> Seq<RuleView> {
    match node.rules {
        Some(r) => if level > 0 {
            rule_views(r@) + (if level >= 2 {
                hiding_rule()
            } else {
                Seq::empty()
            })
        } else {
            Seq::empty()
        },
        None => Seq::empty(),
    }
}

/// The names of nodes.
pub open spec fn node_names(nodes: Seq<Node>) -> Seq<Seq<u8>> {
    Seq::new(nodes.len(), |i: int| nodes[i].name@)
}

/// A node lies on another device than the walk stays on.
pub open spec fn off_device(node: Node, root_dev: Option<u64>) -> bool {
    root_dev is Some && node.device is Some && node.device != root_dev
}

/// What a walk yields for the directory itself.
pub open spec fn own_visit<E: FileListEnricher>(
    node: Node,
    m: FileMetadata,
    prefix: Seq<u8>,
    plan: WalkPlan,
    top: bool,
    es: Seq<E>,
) -> VisitView {
    let e = entry_for(m, dir_name(prefix));
    VisitView {
        entry: if plan.top_enriched || !top {
            enriched_all(es, e, node)
        } else {
            e
        },
        path: node.path@,
    }
}

/// What a walk over a directory yields.
pub open spec fn visits<E: FileListEnricher>(
    node: Node,
    prefix: Seq<u8>,
    rules: Seq<RuleView>,
    plan: WalkPlan,
    top: bool,
    es: Seq<E>,
) -> Result<Seq<VisitView>, FsErrorView>
    decreases node, 1nat, 0nat,
{
    if off_device(node, plan.root_dev) {
        Ok(Seq::empty())
    } else {
        match walk_meta(node, plan.options.copy_links) {
            Err(e) => Err(e),
            Ok(m) => match node.children {
                Err(e) => Err(e@),
                Ok(nodes) => {
                    match child_visits(
                        node,
                        nodes@.len(),
                        prefix,
                        rules + own_rules(node, plan.options.filter_merge_files),
                        plan,
                        es,
                    ) {
                        Err(e) => Err(e),
                        Ok(rest) => Ok(seq![own_visit(node, m, prefix, plan, top, es)] + rest),
                    }
                },
            },
        }
    }
}

/// What a walk yields for one thing in a directory.
pub open spec fn one_visit<E: FileListEnricher>(
    node: Node,
    i: int,
    prefix: Seq<u8>,
    rules: Seq<RuleView>,
    plan: WalkPlan,
    es: Seq<E>,
) -> Result<Seq<VisitView>, FsErrorView>
    decreases node, 0nat, 0nat,
{
    if node.children is Ok && 0 <= i < node.children->Ok_0@.len() {
        let child = node.children->Ok_0@[i];
        let name = name_below(prefix, child.name@);
        match walk_meta(child, plan.options.copy_links) {
            Err(_) => Ok(Seq::empty()),
            Ok(m) => if !passes(rules, name, is_directory(m)) {
                Ok(Seq::empty())
            } else if is_directory(m) {
                visits(child, name, rules, plan, false, es)
            } else {
                Ok(
                    seq![
                        VisitView {
                            entry: enriched_all(es, entry_for(m, name), child),
                            path: child.path@,
                        },
                    ],
                )
            },
        }
    } else {
        Ok(Seq::empty())
    }
}

/// What a walk yields for the first things in a directory, by name.
pub open spec fn child_visits<E: FileListEnricher>(
    node: Node,
    n: nat,
    prefix: Seq<u8>,
    rules: Seq<RuleView>,
    plan: WalkPlan,
    es: Seq<E>,
) -> Result<Seq<VisitView>, FsErrorView>
    decreases node, 0nat, n + 1,
{
    if n == 0 || !(node.children is Ok) {
        Ok(Seq::empty())
    } else {
        match child_visits(node, (n - 1) as nat, prefix, rules, plan, es) {
            Err(e) => Err(e),
            Ok(before) => {
                let i = name_order(node_names(node.children->Ok_0@))[n - 1] as int;
                match one_visit(node, i, prefix, rules, plan, es) {
                    Err(e) => Err(e),
                    Ok(more) => Ok(before + more),
                }
            },
        }
    }
}

// ---------------------------------------------------------------------------
// What a walk that fails leaves behind
// ---------------------------------------------------------------------------

/// The filter rules inside a directory.
pub open spec fn rules_inside(f: RuleListView, node: Node, level: u8) -> RuleListView {
    RuleListView {
        rules: f.rules + own_rules(node, level),
        scopes: if level > 0 && node.rules is Some {
            scope_begun(f).scopes
        } else {
            f.scopes
        },
    }
}

/// What a walk over a directory has found when it fails, and the filter rules
/// that are then in force: those of the directories that it was in.
pub open spec fn left<E: FileListEnricher>(
    node: Node,
    prefix: Seq<u8>,
    f: RuleListView,
    plan: WalkPlan,
    top: bool,
    es: Seq<E>,
) -> (Seq<VisitView>, RuleListView)
    decreases node, 1nat, 0nat,
{
    match walk_meta(node, plan.options.copy_links) {
        Err(_) => (Seq::empty(), f),
        Ok(m) => {
            let inside = rules_inside(f, node, plan.options.filter_merge_files);
            let own = seq![own_visit(node, m, prefix, plan, top, es)];
            match node.children {
                Err(_) => (own, inside),
                Ok(nodes) => {
                    let (found, rules) = left_inside(node, nodes@.len(), prefix, inside, plan, es);
                    (own + found, rules)
                },
            }
        },
    }
}

/// What a walk has found in a directory when it fails among the first things in
/// it.
pub open spec fn left_inside<E: FileListEnricher>(
    node: Node,
    n: nat,
    prefix: Seq<u8>,
    f: RuleListView,
    plan: WalkPlan,
    es: Seq<E>,
) -> (Seq<VisitView>, RuleListView)
    decreases node, 0nat, n + 1,
{
    if n == 0 || !(node.children is Ok) {
        (Seq::empty(), f)
    } else {
        match child_visits(node, (n - 1) as nat, prefix, f.rules, plan, es) {
            Err(_) => left_inside(node, (n - 1) as nat, prefix, f, plan, es),
            Ok(before) => {
                let i = name_order(node_names(node.children->Ok_0@))[n - 1] as int;
                let (found, rules) = left_below(node, i, prefix, f, plan, es);
                (before + found, rules)
            },
        }
    }
}

/// What a walk that fails has found in one thing in a directory.
pub open spec fn left_below<E: FileListEnricher>(
    node: Node,
    i: int,
    prefix: Seq<u8>,
    f: RuleListView,
    plan: WalkPlan,
    es: Seq<E>,
) -> (Seq<VisitView>, RuleListView)
    decreases node, 0nat, 0nat,
{
    if node.children is Ok && 0 <= i < node.children->Ok_0@.len() {
        let child = node.children->Ok_0@[i];
        left(child, name_below(prefix, child.name@), f, plan, false, es)
    } else {
        (Seq::empty(), f)
    }
}

/// The outcome of something that adds to what was found before.
pub open spec fn walked(
    before: Seq<VisitView>,
    after: Seq<VisitView>,
    found: Result<Seq<VisitView>, FsErrorView>,
    r: Result<(), FsError>,
) -> bool {
    match r {
        Ok(_) => found is Ok && after == before + found->Ok_0,
        Err(e) => found == Err::<Seq<VisitView>, FsErrorView>(e@),
    }
}

/// The outcome of a walk: what it adds to what was found before, and the filter
/// rules after it.
pub open spec fn walk_outcome(
    before: Seq<VisitView>,
    after: Seq<VisitView>,
    filters_before: RuleListView,
    filters_after: RuleListView,
    found: Result<Seq<VisitView>, FsErrorView>,
    on_failure: (Seq<VisitView>, RuleListView),
    r: Result<(), FsError>,
) -> bool {
    match r {
        Ok(_) => found is Ok && after == before + found->Ok_0 && filters_after == filters_before,
        Err(e) => found == Err::<Seq<VisitView>, FsErrorView>(e@) && after == before
            + on_failure.0 && filters_after == on_failure.1,
    }
}

// ---------------------------------------------------------------------------
// Walking
// ---------------------------------------------------------------------------

fn full_name(prefix: &[u8], name: &[u8]) -> (r: Vec<u8>)
    ensures
        r@ == name_below(prefix@, name@),
{
    if prefix.len() == 0 {
        return copy_bytes(name);
    }
    let mut out = copy_bytes(prefix);
    out.push(0x2F);
    let mut tail = copy_bytes(name);
    out.append(&mut tail);
    assert(out@ =~= name_below(prefix@, name@));
    out
}

/// Records the target of the link that an entry is.
pub fn add_target(entry: &mut FileEntry, node: &Node, wanted: bool)
    ensures
        final(entry)@ == with_target(old(entry)@, *node, wanted),
{
    if wanted && entry.is_symlink() {
        entry.link_target = match &node.target {
            Some(t) => copy_bytes(t.as_slice()),
            None => Vec::new(),
        };
        assert(entry@ =~= with_target(old(entry)@, *node, wanted));
    }
}

pub(crate) fn meta_of(node: &Node, copy_links: bool) -> (r: Result<FileMetadata, FsError>)
    ensures
        match r {
            Ok(m) => walk_meta(*node, copy_links) == Ok::<FileMetadata, FsErrorView>(m),
            Err(e) => walk_meta(*node, copy_links) == Err::<FileMetadata, FsErrorView>(e@),
        },
{
    if copy_links {
        match &node.followed {
            Ok(m) => Ok(*m),
            Err(e) => Err(e.clone()),
        }
    } else {
        Ok(node.meta)
    }
}

/// Adds the rules of a directory's own filter file, in a scope of their own.
fn push_filter_scope(node: &Node, filters: &mut FilterRuleList, level: u8) -> (r: bool)
    ensures
        r == (level > 0 && node.rules is Some),
        final(filters)@ == rules_inside(old(filters)@, *node, level),
{
    let ghost had = filters@;
    assert(had.rules + Seq::<RuleView>::empty() =~= had.rules);
    if level == 0 {
        return false;
    }
    match &node.rules {
        None => false,
        Some(own) => {
            filters.push_scope();
            let mut i: usize = 0;
            assert(rule_views(own@).take(0) =~= Seq::empty());
            while i < own.len()
                invariant
                    i <= own.len(),
                    filters@.rules == had.rules + rule_views(own@).take(i as int),
                    filters@.scopes == scope_begun(had).scopes,
                decreases own.len() - i,
            {
                let rule = own[i].copied();
                let ghost before = filters@.rules;
                filters.push(rule);
                proof {
                    let v = rule_views(own@);
                    assert(v.take(i + 1) =~= v.take(i as int).push(v[i as int]));
                    assert(before.push(rule@) =~= had.rules + v.take(i + 1));
                }
                i = i + 1;
            }
            assert(rule_views(own@).take(i as int) =~= rule_views(own@));
            if level >= 2 {
                let ghost before = filters@.rules;
                match filters.add_exclude(".rsync-filter") {
                    Ok(_) => {
                        proof {
                            let h = hiding_rule();
                            assert(before.push(h[0]) =~= had.rules + (rule_views(own@) + h));
                        }
                    },
                    Err(_) => {
                        assert(before =~= had.rules + (rule_views(own@) + hiding_rule()));
                    },
                }
            } else {
                assert(rule_views(own@) + Seq::<RuleView>::empty() =~= rule_views(own@));
            }
            true
        },
    }
}

/// Walks over a directory.
pub fn walk<E: FileListEnricher>(
    node: &Node,
    prefix: &[u8],
    out: &mut Vec<Visit>,
    filters: &mut FilterRuleList,
    plan: WalkPlan,
    top: bool,
    enrichers: &[E],
) -> (r: Result<(), FsError>)
    ensures
        walk_outcome(
            visit_views(old(out)@),
            visit_views(final(out)@),
            old(filters)@,
            final(filters)@,
            visits(*node, prefix@, old(filters)@.rules, plan, top, enrichers@),
            left(*node, prefix@, old(filters)@, plan, top, enrichers@),
            r,
        ),
        plan.options.filter_merge_files == 0 ==> final(filters)@ == old(filters)@,
    decreases node, 1nat, 0nat,
{
    let ghost had = filters@;
    let ghost before = visit_views(out@);
    // The rules can be counted, so a scope can be ended where it began.
    let _count: usize = filters.len();
    match (plan.root_dev, node.device) {
        (Some(dev), Some(current)) => {
            if current != dev {
                assert(before + Seq::<VisitView>::empty() =~= before);
                return Ok(());
            }
        },
        _ => {},
    }
    let m: FileMetadata = match meta_of(node, plan.options.copy_links) {
        Ok(m) => m,
        Err(e) => {
            assert(before + Seq::<VisitView>::empty() =~= before);
            return Err(e);
        },
    };
    let own_name = if prefix.len() == 0 {
        let mut dot: Vec<u8> = Vec::new();
        dot.push(0x2E);
        dot
    } else {
        copy_bytes(prefix)
    };
    assert(own_name@ =~= dir_name(prefix@));
    let mut entry = m.to_file_entry(own_name);
    if plan.top_enriched || !top {
        enrich_all(enrichers, &mut entry, node);
    }
    let visit = Visit { entry, path: copy_bytes(node.path.as_slice()) };
    let ghost own = visit@;
    out.push(visit);
    assert(visit_views(out@) =~= before + seq![own]);
    let scoped = push_filter_scope(node, filters, plan.options.filter_merge_files);
    let ghost inner = filters@;
    proof {
        if plan.options.filter_merge_files == 0 {
            assert(had.rules + Seq::<RuleView>::empty() =~= had.rules);
            assert(inner =~= had);
        }
    }
    let nodes: &Vec<Node> = match &node.children {
        Ok(n) => n,
        Err(e) => {
            return Err(e.clone());
        },
    };
    let mut names: Vec<&[u8]> = Vec::new();
    let mut k: usize = 0;
    while k < nodes.len()
        invariant
            k <= nodes.len(),
            names.len() == k,
            forall|j: int| 0 <= j < k ==> (#[trigger] names@[j])@ == nodes@[j].name@,
        decreases nodes.len() - k,
    {
        names.push(nodes[k].name.as_slice());
        k = k + 1;
    }
    assert(views(names@) =~= node_names(nodes@));
    let order = order_of_names(&names);
    let mut n: usize = 0;
    let ghost rules = inner.rules;
    assert(before + seq![own] + Seq::<VisitView>::empty() =~= before + seq![own]);
    while n < order.len()
        invariant
            n <= order.len(),
            order.len() == nodes.len(),
            node.children == Ok::<Vec<Node>, FsError>(*nodes),
            order@ == name_order(node_names(nodes@)),
            forall|j: int| 0 <= j < order.len() ==> (#[trigger] order@[j]) < nodes.len(),
            filters@ == inner,
            inner == rules_inside(had, *node, plan.options.filter_merge_files),
            plan.options.filter_merge_files == 0 ==> inner == had,
            walk_meta(*node, plan.options.copy_links) is Ok ==> own == own_visit(
                *node,
                walk_meta(*node, plan.options.copy_links)->Ok_0,
                prefix@,
                plan,
                top,
                enrichers@,
            ),
            rules == inner.rules,
            rules == had.rules + own_rules(*node, plan.options.filter_merge_files),
            had == old(filters)@,
            before == visit_views(old(out)@),
            !off_device(*node, plan.root_dev),
            walk_meta(*node, plan.options.copy_links) is Ok,
            child_visits(*node, n as nat, prefix@, rules, plan, enrichers@) is Ok,
            visit_views(out@) == before + seq![own] + child_visits(
                *node,
                n as nat,
                prefix@,
                rules,
                plan,
                enrichers@,
            )->Ok_0,
        decreases order.len() - n,
    {
        let i: usize = order[n];
        assert(order@[n as int] < nodes.len());
        let ghost so_far = child_visits(*node, n as nat, prefix@, rules, plan, enrichers@)->Ok_0;
        let ghost found = visit_views(out@);
        let ghost more = one_visit(*node, i as int, prefix@, rules, plan, enrichers@);
        let child = &nodes[i];
        let name = full_name(prefix, child.name.as_slice());
        let mut failed: Option<FsError> = None;
        match meta_of(child, plan.options.copy_links) {
            Err(_) => {
                assert(found + Seq::<VisitView>::empty() =~= found);
            },
            Ok(cm) => {
                let is_dir = cm.is_dir();
                if !filters.is_included(name.as_slice(), is_dir) {
                    assert(found + Seq::<VisitView>::empty() =~= found);
                } else if is_dir {
                    match walk(child, name.as_slice(), out, filters, plan, false, enrichers) {
                        Ok(_) => {},
                        Err(e) => {
                            failed = Some(e);
                        },
                    }
                } else {
                    let mut entry = cm.to_file_entry(name);
                    enrich_all(enrichers, &mut entry, child);
                    let visit = Visit { entry, path: copy_bytes(child.path.as_slice()) };
                    let ghost vv = visit@;
                    out.push(visit);
                    assert(visit_views(out@) =~= found + seq![vv]);
                }
            },
        }
        match failed {
            Some(e) => {
                proof {
                    child_error_stays(
                        *node,
                        (n + 1) as nat,
                        nodes@.len(),
                        prefix@,
                        inner,
                        plan,
                        enrichers@,
                    );
                    let below = left_below(*node, i as int, prefix@, inner, plan, enrichers@).0;
                    assert(visit_views(out@) =~= before + (seq![own] + (so_far + below)));
                }
                return Err(e);
            },
            None => {},
        }
        proof {
            assert(visit_views(out@) =~= found + more->Ok_0);
            assert(found + more->Ok_0 =~= before + seq![own] + (so_far + more->Ok_0));
        }
        n = n + 1;
    }
    if scoped {
        filters.pop_scope();
    }
    proof {
        let rest = child_visits(*node, nodes@.len(), prefix@, rules, plan, enrichers@)->Ok_0;
        assert(visit_views(out@) =~= before + (seq![own] + rest));
        if scoped {
            let o = own_rules(*node, plan.options.filter_merge_files);
            scope_restores(had, o);
            assert(inner =~= (RuleListView { rules: had.rules + o, ..scope_begun(had) }));
        } else {
            assert(inner.rules =~= had.rules);
            assert(inner =~= had);
        }
    }
    Ok(())
}

/// A walk that has failed stays failed, with the same error, and leaves the same
/// behind.
proof fn child_error_stays<E: FileListEnricher>(
    node: Node,
    n: nat,
    to: nat,
    prefix: Seq<u8>,
    f: RuleListView,
    plan: WalkPlan,
    es: Seq<E>,
)
    requires
        n <= to,
        child_visits(node, n, prefix, f.rules, plan, es) is Err,
    ensures
        child_visits(node, to, prefix, f.rules, plan, es) == child_visits(
            node,
            n,
            prefix,
            f.rules,
            plan,
            es,
        ),
        left_inside(node, to, prefix, f, plan, es) == left_inside(node, n, prefix, f, plan, es),
    decreases to - n,
{
    if n < to {
        child_error_stays(node, n, (to - 1) as nat, prefix, f, plan, es);
    }
}

// ---------------------------------------------------------------------------
// Entries of a directory
// ---------------------------------------------------------------------------

/// The entries of visits.
pub open spec fn visit_entries(s: Seq<VisitView>) -> Seq<EntryView> {
    Seq::new(s.len(), |i: int| s[i].entry)
}

/// Moves the entries of visits to a list.
pub fn push_entries(entries: &mut Vec<FileEntry>, found: Vec<Visit>)
    ensures
        entry_views(final(entries)@) == entry_views(old(entries)@) + visit_entries(
            visit_views(found@),
        ),
{
    let ghost had = entry_views(entries@);
    let ghost all = visit_entries(visit_views(found@));
    let mut rest: Vec<FileEntry> = Vec::new();
    let mut found = found;
    while found.len() > 0
        invariant
            found.len() + rest.len() == all.len(),
            forall|j: int| 0 <= j < found.len() ==> (#[trigger] found@[j]).entry@ == all[j],
            forall|j: int|
                0 <= j < rest.len() ==> (#[trigger] rest@[j])@ == all[all.len() - 1 - j],
        decreases found.len(),
    {
        let ghost last = found@.last();
        let ghost n = found@.len();
        let v = found.pop().unwrap();
        proof {
            assert(v.entry@ == all[n - 1]);
        }
        rest.push(v.entry);
    }
    while rest.len() > 0
        invariant
            rest.len() <= all.len(),
            entry_views(entries@) == had + all.take(all.len() - rest.len()),
            forall|j: int|
                0 <= j < rest.len() ==> (#[trigger] rest@[j])@ == all[all.len() - 1 - j],
        decreases rest.len(),
    {
        let ghost k = all.len() - rest.len();
        let e = rest.pop().unwrap();
        let ghost ev = e@;
        let ghost before = entry_views(entries@);
        entries.push(e);
        proof {
            assert(ev == all[k]);
            assert(all.take(k + 1) =~= all.take(k).push(ev));
            assert(entry_views(entries@) =~= before.push(ev));
            assert(before.push(ev) =~= had + all.take(k + 1));
        }
    }
    assert(all.take(all.len() as int) =~= all);
}

/// The walk that collects plain entries.
pub open spec fn entry_plan(o: WalkOptions) -> WalkPlan {
    WalkPlan { options: o, root_dev: None, top_enriched: false }
}

/// Recursively collect directory entries into a flat `FileEntry` list.
///
/// - `node`: the directory to walk.
/// - `prefix`: relative path prefix for child names (empty for the root).
/// - `entries`: output vector to append entries to.
/// - `filters`: filter rules; entries not matching are skipped.
///
/// The directory itself is added first (with name `"."` if `prefix` is empty),
/// followed by its children in sorted order. Subdirectories are recursed into.
pub fn collect_directory_entries(
    node: &Node,
    prefix: &[u8],
    entries: &mut Vec<FileEntry>,
    filters: &mut FilterRuleList,
    walk_opts: &WalkOptions,
) -> (r: Result<(), FsError>)
    ensures
        ({
            let found = visits(
                *node,
                prefix@,
                old(filters)@.rules,
                entry_plan(*walk_opts),
                true,
                target_stages(!walk_opts.copy_links),
            );
            let stopped = left(
                *node,
                prefix@,
                old(filters)@,
                entry_plan(*walk_opts),
                true,
                target_stages(!walk_opts.copy_links),
            );
            match r {
                Ok(_) => found is Ok && entry_views(final(entries)@) == entry_views(old(entries)@)
                    + visit_entries(found->Ok_0) && final(filters)@ == old(filters)@,
                Err(e) => found == Err::<Seq<VisitView>, FsErrorView>(e@) && entry_views(
                    final(entries)@,
                ) == entry_views(old(entries)@) + visit_entries(stopped.0) && final(filters)@
                    == stopped.1,
            }
        }),
{
    let plan = WalkPlan {
        options: *walk_opts,
        root_dev: None,
        top_enriched: false,
    };
    let stages = make_target_stages(!walk_opts.copy_links);
    let mut out: Vec<Visit> = Vec::new();
    let r = walk(node, prefix, &mut out, filters, plan, true, stages.as_slice());
    proof {
        assert(visit_views(Seq::<Visit>::empty()) =~= Seq::empty());
        let o = entry_plan(*walk_opts);
        let found = visits(*node, prefix@, old(filters)@.rules, o, true, stages@);
        let stopped = left(*node, prefix@, old(filters)@, o, true, stages@);
        if r is Ok {
            assert(visit_views(out@) =~= found->Ok_0);
        } else {
            assert(visit_views(out@) =~= stopped.0);
        }
    }
    push_entries(entries, out);
    r
}

} // verus!

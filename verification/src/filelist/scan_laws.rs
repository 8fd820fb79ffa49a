//! What sources add to a list.

use vstd::prelude::*;

use vstd::utf8::encode_utf8;

use crate::engine::session::{all_pushed, pushed_entries};
use crate::engine::transfer::{all_local_visits, local_visits};
use crate::error::FsErrorView;
use crate::filelist::entry::{entry_name_of, file_name_of, EntryView};
use crate::filelist::groups::grouped_entries;
use crate::filelist::scanner::{
    all_finalized, directory_entries, enriched_all, listed, listed_items, names_in, numbered,
    scanned, scanned_entries, source_visits, target_stages, FileListEnricher, ItemView, ScanOptions,
    Source,
};
use crate::filelist::walk::{visit_entries, visits, Node, VisitView, WalkOptions, WalkPlan};
use crate::filelist::walk_laws::seen;
use crate::filter::rule::{passes, RuleView};
use crate::fs::metadata::{entry_for, FileMetadata};
use crate::options::{DirectoryMode, OptionsView};
use crate::path::joined;
use crate::text::{line_end, trimmed};

verus! {

/// A source that is not there fails the scan, but under `--copy-links` it is
/// passed over like a link that leads nowhere.
pub proof fn missing_sources_fail<E: FileListEnricher>(
    s: Source,
    rules: Seq<RuleView>,
    o: ScanOptions,
    es: Seq<E>,
)
    ensures
        s.found is Err && !o.copy_links ==> source_visits(s, rules, o, es) == Err::<
            Seq<VisitView>,
            FsErrorView,
        >(s.found->Err_0@),
        s.found is Err && o.copy_links ==> source_visits(s, rules, o, es) == Ok::<
            Seq<VisitView>,
            FsErrorView,
        >(Seq::empty()),
        s.found is Ok && o.copy_links && s.found->Ok_0.followed is Err ==> source_visits(
            s,
            rules,
            o,
            es,
        ) == Ok::<Seq<VisitView>, FsErrorView>(Seq::empty()),
{
}

/// A source that is no directory adds one entry, unless the rules exclude it.
pub proof fn file_source_is_one_entry<E: FileListEnricher>(
    s: Source,
    rules: Seq<RuleView>,
    o: ScanOptions,
    es: Seq<E>,
)
    requires
        s.found is Ok,
        seen(s.found->Ok_0, o.copy_links) is Some,
        seen(s.found->Ok_0, o.copy_links)->0.mode & 0o170000 != 0o040000,
    ensures
        ({
            let v = source_visits(s, rules, o, es);
            let name = entry_name_of(s.path@, o.relative);
            &&& v is Ok
            &&& !passes(rules, name, false) ==> v->Ok_0.len() == 0
            &&& passes(rules, name, false) ==> v->Ok_0.len() == 1 && v->Ok_0[0].path == s.path@
                && v->Ok_0[0].entry == enriched_all(
                es,
                entry_for(seen(s.found->Ok_0, o.copy_links)->0, name),
                s.found->Ok_0,
            )
        }),
{
}

/// A source that is a directory is not filtered. It is walked, named or skipped,
/// as the options say; a walk stays on its device only where that was asked for.
pub proof fn directory_source_goes_by_mode<E: FileListEnricher>(
    s: Source,
    rules: Seq<RuleView>,
    other: Seq<RuleView>,
    o: ScanOptions,
    es: Seq<E>,
)
    requires
        s.found is Ok,
        seen(s.found->Ok_0, o.copy_links) is Some,
        seen(s.found->Ok_0, o.copy_links)->0.mode & 0o170000 == 0o040000,
    ensures
        ({
            let v = source_visits(s, rules, o, es);
            let name = entry_name_of(s.path@, o.relative);
            let m = seen(s.found->Ok_0, o.copy_links)->0;
            &&& o.dir_mode == DirectoryMode::Skip ==> v is Ok && v->Ok_0.len() == 0
            &&& o.dir_mode == DirectoryMode::List ==> v is Ok && v->Ok_0.len() == 1
                && v->Ok_0[0].path == s.path@ && v->Ok_0[0].entry == enriched_all(
                es,
                entry_for(m, name),
                s.found->Ok_0,
            ) && v == source_visits(s, other, o, es)
            &&& o.dir_mode == DirectoryMode::Recurse ==> v == visits(
                s.found->Ok_0,
                if o.relative {
                    name
                } else {
                    Seq::empty()
                },
                rules,
                WalkPlan {
                    options: WalkOptions {
                        copy_links: o.copy_links,
                        one_file_system: o.one_file_system,
                        filter_merge_files: o.filter_merge_files,
                    },
                    root_dev: if o.one_file_system {
                        Some(m.dev)
                    } else {
                        None
                    },
                    top_enriched: true,
                },
                true,
                es,
            )
        }),
{
}

/// Sources add to a list one after the other; the first that fails ends the scan.
pub proof fn sources_are_scanned_in_order<E: FileListEnricher>(
    a: Seq<Source>,
    s: Source,
    rules: Seq<RuleView>,
    o: ScanOptions,
    es: Seq<E>,
)
    ensures
        ({
            let before = scanned(a, rules, o, es);
            let one = scanned(seq![s], rules, o, es);
            let all = scanned(a.push(s), rules, o, es);
            &&& one == source_visits(s, rules, o, es)
            &&& before is Ok && one is Ok ==> all == Ok::<Seq<VisitView>, FsErrorView>(
                before->Ok_0 + one->Ok_0,
            )
            &&& before is Err ==> all == before
            &&& before is Ok && one is Err ==> all == one
        }),
        scanned(Seq::empty(), rules, o, es) == Ok::<Seq<VisitView>, FsErrorView>(Seq::empty()),
{
    reveal_with_fuel(scanned, 2);
    assert(a.push(s).drop_last() =~= a);
    assert(seq![s].drop_last() =~= Seq::<Source>::empty());
    let one = source_visits(s, rules, o, es);
    if one is Ok {
        assert(Seq::<VisitView>::empty() + one->Ok_0 =~= one->Ok_0);
    }
}

/// Enrichers work on an entry, and finalize a list, one after the other.
pub proof fn enrichers_take_turns<E: FileListEnricher>(
    es: Seq<E>,
    last: E,
    e: EntryView,
    node: Node,
    items: Seq<ItemView>,
)
    ensures
        enriched_all(Seq::<E>::empty(), e, node) == e,
        enriched_all(es.push(last), e, node) == last.enriched(enriched_all(es, e, node), node),
        all_finalized(Seq::<E>::empty(), items) == items,
        all_finalized(es.push(last), items) == last.finalized(all_finalized(es, items)),
{
    assert(es.push(last).drop_last() =~= es);
}

/// Items are numbered from 0 and keep entry and place.
pub proof fn items_are_numbered(v: Seq<VisitView>, i: int)
    requires
        0 <= i < v.len() <= i32::MAX,
    ensures
        numbered(v).len() == v.len(),
        numbered(v)[i].index == i,
        numbered(v)[i].entry == v[i].entry,
        numbered(v)[i].source_path == v[i].path,
{
}

/// Without `-H` a scan gives the entries as they were found. With it, an entry of
/// a file that an earlier one has too knows the name of the first of these, and
/// nothing else changes.
pub proof fn links_know_the_first<E: FileListEnricher>(
    sources: Seq<Source>,
    rules: Seq<RuleView>,
    o: ScanOptions,
    es: Seq<E>,
)
    requires
        scanned(sources, rules, o, es) is Ok,
    ensures
        ({
            let found = visit_entries(scanned(sources, rules, o, es)->Ok_0);
            let r = scanned_entries(sources, rules, o, es);
            &&& r is Ok
            &&& !o.preserve_hard_links ==> r->Ok_0 == found
            &&& o.preserve_hard_links ==> r->Ok_0 == grouped_entries(found)
        }),
{
}

/// Two entries are names of one file: more than one name leads to it, on the same
/// device and under the same number.
pub open spec fn one_file(a: EntryView, b: EntryView) -> bool {
    match (a.hard_link_info, b.hard_link_info) {
        (Some(x), Some(y)) => x.nlink > 1 && y.nlink > 1 && x.dev == y.dev && x.ino == y.ino,
        _ => false,
    }
}

/// Every entry of one file but the first knows the first one's name; an entry
/// without an earlier one of its file stays as it is.
pub proof fn later_links_know_the_first(es: Seq<EntryView>, i: int, j: int)
    requires
        0 <= i < es.len(),
        0 <= j < es.len(),
        forall|k: int| 0 <= k < i ==> !one_file(#[trigger] es[k], es[i]),
    ensures
        grouped_entries(es).len() == es.len(),
        grouped_entries(es)[i] == es[i],
        i < j && one_file(es[i], es[j]) ==> grouped_entries(es)[j] == (EntryView {
            hlink_source: Some(es[i].name),
            ..es[j]
        }),
{
    let infos = crate::filelist::groups::link_infos(es);
    assert(forall|k: int| 0 <= k < es.len() ==> infos[k] == (#[trigger] es[k]).hard_link_info);
    if one_file(es[i], es[i]) {
        crate::filelist::groups::first_shared_is_first(infos, infos[i], 0, i);
        let f = crate::filelist::groups::first_shared(infos, infos[i], 0);
        assert(one_file(es[f], es[i]));
    }
    if i < j && one_file(es[i], es[j]) {
        crate::filelist::groups::first_shared_is_first(infos, infos[j], 0, i);
        let f = crate::filelist::groups::first_shared(infos, infos[j], 0);
        assert(one_file(es[f], es[i]));
    }
}

// ---------------------------------------------------------------------------
// Lists of names
// ---------------------------------------------------------------------------

/// Lines of a list of names count each for itself: the names of two texts with a
/// line end between them are those of the one and those of the other.
pub proof fn lines_count_apart(a: Seq<char>, b: Seq<char>, rules: Seq<RuleView>)
    ensures
        names_in(a + seq!['\n'] + b, 0, rules) == names_in(a, 0, rules) + names_in(b, 0, rules),
{
    names_before(a, b, 0, rules);
}

proof fn line_end_shifts(s: Seq<char>, b: Seq<char>, k: int, i: int)
    requires
        0 <= k,
        s.len() == k + b.len(),
        s.skip(k) == b,
        0 <= i <= b.len(),
    ensures
        line_end(s, k + i) == k + line_end(b, i),
    decreases b.len() - i,
{
    if i < b.len() {
        assert(b[i] == s.skip(k)[i]);
        if b[i] != '\n' {
            line_end_shifts(s, b, k, i + 1);
        }
    }
}

proof fn names_behind(s: Seq<char>, b: Seq<char>, k: int, i: int, rules: Seq<RuleView>)
    requires
        0 <= k,
        s.len() == k + b.len(),
        s.skip(k) == b,
        0 <= i,
    ensures
        names_in(s, k + i, rules) == names_in(b, i, rules),
    decreases b.len() + 1 - i,
{
    if i < b.len() {
        line_end_shifts(s, b, k, i);
        crate::text::line_end_bound(b, i);
        let e = line_end(b, i);
        assert(s.subrange(k + i, k + e) =~= b.subrange(i, e));
        names_behind(s, b, k, e + 1, rules);
    }
}

proof fn names_before(a: Seq<char>, b: Seq<char>, i: int, rules: Seq<RuleView>)
    requires
        0 <= i <= a.len() + 1,
    ensures
        names_in(a + seq!['\n'] + b, i, rules) == names_in(a, i, rules) + names_in(b, 0, rules),
    decreases a.len() + 1 - i,
{
    let s = a + seq!['\n'] + b;
    assert(s.skip(a.len() as int + 1) =~= b);
    if i == a.len() + 1 {
        names_behind(s, b, a.len() as int + 1, 0, rules);
        assert(names_in(a, i, rules) + names_in(b, 0, rules) =~= names_in(b, 0, rules));
    } else {
        line_end_before(a, b, i);
        let e = line_end(a, i);
        crate::text::line_end_bound(s, i);
        assert(s.subrange(i, e) =~= a.subrange(i, e));
        names_before(a, b, e + 1, rules);
        if i == a.len() {
            assert(s.subrange(i, e) =~= Seq::<char>::empty());
            assert(trimmed(Seq::<char>::empty()) =~= Seq::<char>::empty());
        }
        let line = trimmed(s.subrange(i, e));
        let rest = names_in(a, e + 1, rules);
        assert((seq![encode_utf8(line)] + rest) + names_in(b, 0, rules) =~= seq![
            encode_utf8(line),
        ] + (rest + names_in(b, 0, rules)));
        assert(names_in(a, i, rules) + names_in(b, 0, rules) =~= names_in(s, i, rules));
    }
}

proof fn line_end_before(a: Seq<char>, b: Seq<char>, i: int)
    requires
        0 <= i <= a.len(),
    ensures
        line_end(a + seq!['\n'] + b, i) == line_end(a, i),
        i <= line_end(a, i) <= a.len(),
    decreases a.len() - i,
{
    let s = a + seq!['\n'] + b;
    if i == a.len() {
        assert(s[i] == '\n');
    } else {
        assert(s[i] == a[i]);
        if a[i] != '\n' {
            line_end_before(a, b, i + 1);
        }
    }
}

/// A line is a name without the white space around it, if anything is left and
/// the rules let it pass.
pub proof fn line_is_a_name(s: Seq<char>, rules: Seq<RuleView>)
    requires
        forall|i: int| 0 <= i < s.len() ==> s[i] != '\n',
    ensures
        ({
            let t = trimmed(s);
            let name = encode_utf8(t);
            &&& t.len() > 0 && passes(rules, name, false) ==> names_in(s, 0, rules) == seq![name]
            &&& t.len() == 0 || !passes(rules, name, false) ==> names_in(s, 0, rules).len() == 0
        }),
{
    if s.len() > 0 {
        whole_line(s, 0);
        assert(s.subrange(0, s.len() as int) =~= s);
        assert(names_in(s, s.len() as int + 1, rules) =~= Seq::empty());
        assert(seq![encode_utf8(trimmed(s))] + Seq::<Seq<u8>>::empty() =~= seq![
            encode_utf8(trimmed(s)),
        ]);
    } else {
        assert(trimmed(s) =~= s);
    }
}

proof fn whole_line(s: Seq<char>, i: int)
    requires
        0 <= i <= s.len(),
        forall|j: int| 0 <= j < s.len() ==> s[j] != '\n',
    ensures
        line_end(s, i) == s.len(),
    decreases s.len() - i,
{
    if i < s.len() {
        whole_line(s, i + 1);
    }
}

/// A listed file that exists is an entry under its name, found below the base;
/// one that is missing adds nothing.
pub proof fn listed_file_is_an_entry(
    base: Seq<u8>,
    names: Seq<Seq<u8>>,
    name: Seq<u8>,
    metas: Seq<Option<FileMetadata>>,
)
    requires
        metas.len() == names.len() + 1,
    ensures
        ({
            let before = listed_items(base, names, metas);
            let after = listed_items(base, names.push(name), metas);
            &&& metas.last() is None ==> after == before
            &&& metas.last() is Some ==> after.len() == before.len() + 1 && after.drop_last()
                == before && after.last().path == joined(base, name) && after.last().entry
                == entry_for(metas.last()->0, name)
        }),
        listed_items(base, Seq::empty(), metas).len() == 0,
{
    assert(names.push(name).drop_last() =~= names);
    let before = listed_items(base, names, metas);
    let after = listed_items(base, names.push(name), metas);
    if metas.last() is Some {
        assert(after.drop_last() =~= before);
    }
}

// ---------------------------------------------------------------------------
// Sources of a transfer
// ---------------------------------------------------------------------------

/// A source of a local transfer adds nothing where the rules exclude it or where
/// it is a directory that is not walked. A file is one entry under its name, a
/// directory is walked.
pub proof fn local_source_is_filtered(
    s: Source,
    recursive: bool,
    rules: Seq<RuleView>,
    one_file_system: bool,
)
    requires
        s.found is Ok,
    ensures
        ({
            let v = local_visits(s, recursive, rules, one_file_system);
            let node = s.found->Ok_0;
            let name = if file_name_of(s.path@) is Some {
                file_name_of(s.path@)->0
            } else {
                Seq::empty()
            };
            let dir = node.meta.mode & 0o170000 == 0o040000;
            let plan = WalkPlan {
                options: WalkOptions { copy_links: false, one_file_system, filter_merge_files: 0 },
                root_dev: if one_file_system {
                    Some(node.meta.dev)
                } else {
                    None
                },
                top_enriched: true,
            };
            &&& !passes(rules, name, dir) || (dir && !recursive) ==> v is Ok && v->Ok_0.len() == 0
            &&& passes(rules, name, dir) && !dir ==> v is Ok && v->Ok_0.len() == 1
                && v->Ok_0[0].path == s.path@ && v->Ok_0[0].entry.name == name
                && v->Ok_0[0].entry.len == node.meta.len && v->Ok_0[0].entry.mode == node.meta.mode
                && v->Ok_0[0].entry.mtime == node.meta.mtime
            &&& passes(rules, name, dir) && dir && recursive ==> v == visits(
                node,
                Seq::empty(),
                rules,
                plan,
                true,
                target_stages(true),
            )
        }),
{
}

/// A link knows where it leads; other entries lead nowhere.
pub proof fn links_know_their_target(e: EntryView, node: Node)
    ensures
        ({
            let t = enriched_all(target_stages(true), e, node);
            &&& e.mode & 0o170000 == 0o120000 && node.target is Some ==> t == (EntryView {
                link_target: node.target->0@,
                ..e
            })
            &&& e.mode & 0o170000 == 0o120000 && node.target is None ==> t == (EntryView {
                link_target: Seq::empty(),
                ..e
            })
            &&& e.mode & 0o170000 != 0o120000 ==> t == e
            &&& enriched_all(target_stages(false), e, node) == e
        }),
{
    reveal_with_fuel(enriched_all, 2);
    assert(target_stages(true).drop_last() =~= target_stages(false));
}

/// A source that is sent is filtered like any entry. A directory is walked where
/// the transfer is recursive and is an entry of its own where it is not.
pub proof fn pushed_source_is_filtered(s: Source, rules: Seq<RuleView>, o: OptionsView)
    requires
        s.found is Ok,
        seen(s.found->Ok_0, o.tree.copy_links) is Some,
    ensures
        ({
            let r = pushed_entries(s, rules, o);
            let name = entry_name_of(s.path@, o.tree.relative);
            let m = seen(s.found->Ok_0, o.tree.copy_links)->0;
            let dir = m.mode & 0o170000 == 0o040000;
            &&& !passes(rules, name, dir) ==> r is Ok && r->Ok_0.len() == 0
            &&& passes(rules, name, dir) && !(dir && o.archive.recursive) ==> r is Ok
                && r->Ok_0.len() == 1 && r->Ok_0[0].name == name && r->Ok_0[0].len == m.len
                && r->Ok_0[0].mode == m.mode && r->Ok_0[0].mtime == m.mtime
            &&& passes(rules, name, dir) && dir && o.archive.recursive ==> {
                let v = visits(
                    s.found->Ok_0,
                    if o.tree.relative {
                        name
                    } else {
                        Seq::empty()
                    },
                    rules,
                    WalkPlan {
                        options: WalkOptions {
                            copy_links: o.tree.copy_links,
                            one_file_system: false,
                            filter_merge_files: o.limits.filter_merge_files,
                        },
                        root_dev: None,
                        top_enriched: false,
                    },
                    true,
                    target_stages(!o.tree.copy_links),
                );
                &&& v is Ok ==> r == Ok::<Seq<EntryView>, FsErrorView>(visit_entries(v->Ok_0))
                &&& v is Err ==> r == Err::<Seq<EntryView>, FsErrorView>(v->Err_0)
            }
        }),
{
}

/// Sources add to what is sent one after the other, up to the first that fails.
pub proof fn sources_add_in_order(
    sources: Seq<Source>,
    n: nat,
    rules: Seq<RuleView>,
    o: OptionsView,
    recursive: bool,
    one_file_system: bool,
)
    ensures
        all_pushed(sources, 0, rules, o) == Ok::<Seq<EntryView>, FsErrorView>(Seq::empty()),
        ({
            let before = all_pushed(sources, n, rules, o);
            let one = pushed_entries(sources[n as int], rules, o);
            let all = all_pushed(sources, n + 1, rules, o);
            &&& before is Ok && one is Ok ==> all == Ok::<Seq<EntryView>, FsErrorView>(
                before->Ok_0 + one->Ok_0,
            )
            &&& before is Err ==> all == before
            &&& before is Ok && one is Err ==> all == one
        }),
        ({
            let before = all_local_visits(sources, n, recursive, rules, one_file_system);
            let one = local_visits(sources[n as int], recursive, rules, one_file_system);
            let all = all_local_visits(sources, n + 1, recursive, rules, one_file_system);
            &&& before is Ok && one is Ok ==> all == Ok::<Seq<VisitView>, FsErrorView>(
                before->Ok_0 + one->Ok_0,
            )
            &&& before is Err ==> all == before
            &&& before is Ok && one is Err ==> all == one
        }),
{
}

/// The entries of a walk are those of its visits, in order.
pub proof fn entries_are_those_of_the_visits(v: Seq<VisitView>, i: int)
    requires
        0 <= i < v.len(),
    ensures
        visit_entries(v).len() == v.len(),
        visit_entries(v)[i] == v[i].entry,
{
}

/// A single path that is a file is one entry under its last component.
pub proof fn file_path_is_one_entry<E: FileListEnricher>(
    node: Node,
    path: Seq<u8>,
    rules: Seq<RuleView>,
    o: ScanOptions,
    es: Seq<E>,
    found: Result<Node, crate::error::FsError>,
)
    requires
        found == Ok::<Node, crate::error::FsError>(node),
        seen(node, o.copy_links) is Some,
        seen(node, o.copy_links)->0.mode & 0o170000 != 0o040000,
        !o.preserve_hard_links,
        file_name_of(path) is Some,
    ensures
        directory_entries(found, path, rules, o, es) == Ok::<Seq<EntryView>, FsErrorView>(
            seq![
                enriched_all(
                    es,
                    entry_for(seen(node, o.copy_links)->0, file_name_of(path)->0),
                    node,
                ),
            ],
        ),
{
}

/// A single path that is a directory is walked where the scan recurses. Else it is
/// `.` and what it holds besides directories; one that cannot be read fails.
pub proof fn directory_path_goes_by_mode<E: FileListEnricher>(
    node: Node,
    path: Seq<u8>,
    rules: Seq<RuleView>,
    o: ScanOptions,
    es: Seq<E>,
    found: Result<Node, crate::error::FsError>,
)
    requires
        found == Ok::<Node, crate::error::FsError>(node),
        seen(node, o.copy_links) is Some,
        seen(node, o.copy_links)->0.mode & 0o170000 == 0o040000,
        !o.preserve_hard_links,
    ensures
        ({
            let r = directory_entries(found, path, rules, o, es);
            let m = seen(node, o.copy_links)->0;
            let v = visits(
                node,
                Seq::empty(),
                rules,
                WalkPlan {
                    options: WalkOptions {
                        copy_links: o.copy_links,
                        one_file_system: o.one_file_system,
                        filter_merge_files: o.filter_merge_files,
                    },
                    root_dev: if o.one_file_system {
                        Some(m.dev)
                    } else {
                        None
                    },
                    top_enriched: true,
                },
                true,
                es,
            );
            &&& o.dir_mode == DirectoryMode::Recurse && v is Ok ==> r == Ok::<
                Seq<EntryView>,
                FsErrorView,
            >(visit_entries(v->Ok_0))
            &&& o.dir_mode == DirectoryMode::Recurse && v is Err ==> r is Err && r->Err_0
                == v->Err_0
            &&& o.dir_mode != DirectoryMode::Recurse && node.children is Err ==> r is Err
                && r->Err_0 == node.children->Err_0@
            &&& o.dir_mode != DirectoryMode::Recurse && node.children is Ok ==> r == Ok::<
                Seq<EntryView>,
                FsErrorView,
            >(
                seq![enriched_all(es, entry_for(m, seq![0x2Eu8]), node)] + listed(
                    node.children->Ok_0@,
                    node.children->Ok_0@.len(),
                    rules,
                    o.copy_links,
                    es,
                ),
            )
        }),
{
}

/// A directory that is listed and not walked gives what it holds besides
/// directories, without what the rules exclude.
pub proof fn listing_leaves_directories_out<E: FileListEnricher>(
    nodes: Seq<Node>,
    n: nat,
    rules: Seq<RuleView>,
    copy_links: bool,
    es: Seq<E>,
)
    requires
        n < nodes.len() <= usize::MAX,
    ensures
        ({
            let names = Seq::new(nodes.len(), |i: int| nodes[i].name@);
            let child = nodes[crate::order::name_order(names)[n as int] as int];
            let before = listed(nodes, n, rules, copy_links, es);
            let after = listed(nodes, n + 1, rules, copy_links, es);
            let m = seen(child, copy_links);
            let shown = m is Some && m->0.mode & 0o170000 != 0o040000 && passes(
                rules,
                child.name@,
                false,
            );
            &&& !shown ==> after == before
            &&& shown ==> after == before.push(
                enriched_all(es, entry_for(m->0, child.name@), child),
            )
        }),
{
    assert(crate::filelist::walk::node_names(nodes) =~= Seq::new(
        nodes.len(),
        |i: int| nodes[i].name@,
    ));
}

} // verus!

//! What a walk over a directory yields.

use vstd::prelude::*;

use crate::error::FsErrorView;
use crate::filelist::scanner::{enriched_all, FileListEnricher};
use crate::filelist::walk::{child_visits, one_visit, visits, Node, VisitView, WalkPlan};
use crate::filter::rule::{passes, rule_views, RuleView};
use crate::fs::metadata::{entry_for, FileMetadata};
use crate::order::{bytes_less, inserted, name_order, sorted_by};

verus! {

/// What a walk goes by: the link itself, or under `--copy-links` what it leads
/// to.
pub open spec fn seen(node: Node, copy_links: bool) -> Option<FileMetadata> {
    if !copy_links {
        Some(node.meta)
    } else if node.followed is Ok {
        Some(node.followed->Ok_0)
    } else {
        None
    }
}

/// A walk that stays on a device yields nothing for a directory on another one.
pub proof fn other_devices_are_left_out<E: FileListEnricher>(
    node: Node,
    prefix: Seq<u8>,
    rules: Seq<RuleView>,
    plan: WalkPlan,
    top: bool,
    es: Seq<E>,
)
    requires
        plan.root_dev is Some,
        node.device is Some,
        plan.root_dev->0 != node.device->0,
    ensures
        visits(node, prefix, rules, plan, top, es) == Ok::<Seq<VisitView>, FsErrorView>(
            Seq::empty(),
        ),
{
}

/// A directory that cannot be read fails the walk; one that is empty yields
/// itself, as `.` at the top.
pub proof fn walk_begins_with_the_directory<E: FileListEnricher>(
    node: Node,
    prefix: Seq<u8>,
    rules: Seq<RuleView>,
    plan: WalkPlan,
    top: bool,
    es: Seq<E>,
)
    requires
        plan.root_dev is None || node.device is None || plan.root_dev->0 == node.device->0,
        seen(node, plan.options.copy_links) is Some,
    ensures
        ({
            let v = visits(node, prefix, rules, plan, top, es);
            let m = seen(node, plan.options.copy_links)->0;
            let e = entry_for(
                m,
                if prefix.len() == 0 {
                    seq![0x2Eu8]
                } else {
                    prefix
                },
            );
            &&& node.children is Err ==> v == Err::<Seq<VisitView>, FsErrorView>(
                node.children->Err_0@,
            )
            &&& v is Ok ==> v->Ok_0.len() > 0 && v->Ok_0[0].path == node.path@
            &&& v is Ok && (plan.top_enriched || !top) ==> v->Ok_0[0].entry == enriched_all(
                es,
                e,
                node,
            )
            &&& v is Ok && (!plan.top_enriched && top || es.len() == 0) ==> v->Ok_0[0].entry == e
            &&& node.children is Ok && node.children->Ok_0@.len() == 0 ==> v is Ok
                && v->Ok_0.len() == 1
        }),
{
    if node.children is Ok && node.children->Ok_0@.len() == 0 {
        assert(child_visits(
            node,
            0,
            prefix,
            rules + crate::filelist::walk::own_rules(node, plan.options.filter_merge_files),
            plan,
            es,
        ) is Ok);
    }
}

/// The rules under which the things in a directory are looked at: the given ones,
/// behind them those of its own filter file, where such files count, and at the
/// second level one that hides these files.
pub open spec fn rules_for_inside(node: Node, rules: Seq<RuleView>, level: u8) -> Seq<RuleView> {
    if level == 0 || node.rules is None {
        rules
    } else if level == 1 {
        rules + rule_views(node.rules->0@)
    } else {
        rules + rule_views(node.rules->0@) + crate::filelist::walk::hiding_rule()
    }
}

/// A directory that holds one thing yields itself and what that thing yields: a
/// directory is walked under its name, anything else is one entry. What the rules
/// exclude, looked at as a directory if it is one, yields nothing, nor does a
/// link that leads nowhere.
pub proof fn one_thing_is_visited<E: FileListEnricher>(
    node: Node,
    prefix: Seq<u8>,
    rules: Seq<RuleView>,
    plan: WalkPlan,
    top: bool,
    es: Seq<E>,
)
    requires
        plan.root_dev is None || node.device is None || plan.root_dev->0 == node.device->0,
        seen(node, plan.options.copy_links) is Some,
        node.children is Ok,
        node.children->Ok_0@.len() == 1,
    ensures
        ({
            let v = visits(node, prefix, rules, plan, top, es);
            let child = node.children->Ok_0@[0];
            let name = if prefix.len() == 0 {
                child.name@
            } else {
                prefix + seq![0x2Fu8] + child.name@
            };
            let inner = rules_for_inside(node, rules, plan.options.filter_merge_files);
            let m = seen(child, plan.options.copy_links);
            let dir = m->0.mode & 0o170000 == 0o040000;
            let below = visits(child, name, inner, plan, false, es);
            &&& m is None || !passes(inner, name, dir) ==> v is Ok && v->Ok_0.len() == 1
            &&& m is Some && passes(inner, name, dir) && !dir ==> v is Ok && v->Ok_0.len() == 2
                && v->Ok_0[1].path == child.path@ && v->Ok_0[1].entry == enriched_all(
                es,
                entry_for(m->0, name),
                child,
            )
            &&& m is Some && passes(inner, name, dir) && dir && below is Ok ==> v is Ok
                && v->Ok_0.skip(1) == below->Ok_0
            &&& m is Some && passes(inner, name, dir) && dir && below is Err ==> v is Err
                && v->Err_0 == below->Err_0
        }),
{
    reveal_with_fuel(child_visits, 2);
    let nodes = node.children->Ok_0@;
    let names = crate::filelist::walk::node_names(nodes);
    one_in_order(names);
    let inner = rules + crate::filelist::walk::own_rules(node, plan.options.filter_merge_files);
    assert(inner =~= rules_for_inside(node, rules, plan.options.filter_merge_files));
    let v = visits(node, prefix, rules, plan, top, es);
    let one = one_visit(node, 0, prefix, inner, plan, es);
    assert(child_visits(node, 0, prefix, inner, plan, es) == Ok::<Seq<VisitView>, FsErrorView>(
        Seq::empty(),
    ));
    if one is Ok {
        assert(Seq::<VisitView>::empty() + one->Ok_0 =~= one->Ok_0);
        assert(child_visits(node, 1, prefix, inner, plan, es) == Ok::<Seq<VisitView>, FsErrorView>(
            one->Ok_0,
        ));
        assert(v->Ok_0.skip(1) =~= one->Ok_0);
    }
}

proof fn one_in_order(names: Seq<Seq<u8>>)
    requires
        names.len() == 1,
    ensures
        name_order(names).len() == 1,
        name_order(names)[0] == 0,
{
    crate::order::name_order_places(names);
    assert(name_order(names)[0] < 1);
}

/// Names compare by their first different byte; a name comes before those that go
/// on behind it.
pub proof fn names_go_by_their_bytes(c: Seq<u8>, a: u8, b: u8, s: Seq<u8>, t: Seq<u8>)
    ensures
        a != b ==> (bytes_less(c + seq![a] + s, c + seq![b] + t) <==> a < b),
        bytes_less(c, c + seq![b] + t),
        !bytes_less(c + seq![b] + t, c),
        !bytes_less(c, c),
    decreases c.len(),
{
    let x = c + seq![a] + s;
    let y = c + seq![b] + t;
    if c.len() > 0 {
        names_go_by_their_bytes(c.skip(1), a, b, s, t);
        assert(x.skip(1) =~= c.skip(1) + seq![a] + s);
        assert(y.skip(1) =~= c.skip(1) + seq![b] + t);
    } else {
        assert(x[0] == a && y[0] == b);
    }
}

/// Of two things in a directory the one with the lesser name comes first, in
/// whatever order the directory lists them, and each yields what it yields
/// alone.
pub proof fn things_are_visited_by_name<E: FileListEnricher>(
    node: Node,
    first: Node,
    second: Node,
    k: int,
    prefix: Seq<u8>,
    rules: Seq<RuleView>,
    plan: WalkPlan,
    top: bool,
    es: Seq<E>,
)
    requires
        k == 0 || k == 1,
        node.children is Ok && first.children is Ok && second.children is Ok,
        node.children->Ok_0@.len() == 2,
        first.children->Ok_0@ == seq![node.children->Ok_0@[k]],
        second.children->Ok_0@ == seq![node.children->Ok_0@[1 - k]],
        first == (Node { children: first.children, ..node }),
        second == (Node { children: second.children, ..node }),
        bytes_less(node.children->Ok_0@[k].name@, node.children->Ok_0@[1 - k].name@),
        plan.root_dev is None || node.device is None || plan.root_dev->0 == node.device->0,
        visits(first, prefix, rules, plan, top, es) is Ok,
        visits(second, prefix, rules, plan, top, es) is Ok,
    ensures
        ({
            let all = visits(node, prefix, rules, plan, top, es);
            let a = visits(first, prefix, rules, plan, top, es);
            let b = visits(second, prefix, rules, plan, top, es);
            all is Ok && all->Ok_0.skip(1) == a->Ok_0.skip(1) + b->Ok_0.skip(1)
        }),
{
    let nodes = node.children->Ok_0@;
    let names = crate::filelist::walk::node_names(nodes);
    two_in_order(names, k);
    let inner = rules + crate::filelist::walk::own_rules(node, plan.options.filter_merge_files);
    only_one_visited(first, prefix, rules, plan, top, es);
    only_one_visited(second, prefix, rules, plan, top, es);
    let x = one_visit(node, k, prefix, inner, plan, es);
    let y = one_visit(node, 1 - k, prefix, inner, plan, es);
    assert(one_visit(first, 0, prefix, inner, plan, es) == x);
    assert(one_visit(second, 0, prefix, inner, plan, es) == y);
    let e = Seq::<VisitView>::empty();
    assert(child_visits(node, 0, prefix, inner, plan, es) == Ok::<Seq<VisitView>, FsErrorView>(e));
    assert(e + x->Ok_0 =~= x->Ok_0);
    assert(child_visits(node, 1, prefix, inner, plan, es) == Ok::<Seq<VisitView>, FsErrorView>(
        x->Ok_0,
    ));
    assert(child_visits(node, 2, prefix, inner, plan, es) == Ok::<Seq<VisitView>, FsErrorView>(
        x->Ok_0 + y->Ok_0,
    ));
    assert(visits(node, prefix, rules, plan, top, es)->Ok_0.skip(1) =~= x->Ok_0 + y->Ok_0);
}

proof fn only_one_visited<E: FileListEnricher>(
    node: Node,
    prefix: Seq<u8>,
    rules: Seq<RuleView>,
    plan: WalkPlan,
    top: bool,
    es: Seq<E>,
)
    requires
        plan.root_dev is None || node.device is None || plan.root_dev->0 == node.device->0,
        node.children is Ok,
        node.children->Ok_0@.len() == 1,
        visits(node, prefix, rules, plan, top, es) is Ok,
    ensures
        ({
            let inner = rules + crate::filelist::walk::own_rules(
                node,
                plan.options.filter_merge_files,
            );
            let one = one_visit(node, 0, prefix, inner, plan, es);
            one is Ok && visits(node, prefix, rules, plan, top, es)->Ok_0.skip(1) == one->Ok_0
        }),
{
    one_in_order(crate::filelist::walk::node_names(node.children->Ok_0@));
    let inner = rules + crate::filelist::walk::own_rules(node, plan.options.filter_merge_files);
    let one = one_visit(node, 0, prefix, inner, plan, es);
    let e = Seq::<VisitView>::empty();
    assert(child_visits(node, 0, prefix, inner, plan, es) == Ok::<Seq<VisitView>, FsErrorView>(e));
    assert(child_visits(node, 1, prefix, inner, plan, es) is Ok);
    assert(e + one->Ok_0 =~= one->Ok_0);
    assert(visits(node, prefix, rules, plan, top, es)->Ok_0.skip(1) =~= one->Ok_0);
}

proof fn two_in_order(names: Seq<Seq<u8>>, k: int)
    requires
        names.len() == 2,
        k == 0 || k == 1,
        bytes_less(names[k], names[1 - k]),
    ensures
        name_order(names) == seq![k as usize, (1 - k) as usize],
{
    reveal_with_fuel(sorted_by, 3);
    reveal_with_fuel(inserted, 3);
    crate::order::bytes_are_ordered();
    let le = crate::order::by_name(names);
    let ns = crate::order::numbers(2);
    assert(ns =~= seq![0usize, 1usize]);
    assert(ns.drop_last() =~= seq![0usize]);
    assert(seq![0usize].drop_last() =~= Seq::<usize>::empty());
    assert(Seq::<usize>::empty().push(0usize) =~= seq![0usize]);
    assert(sorted_by(seq![0usize], le) =~= seq![0usize]);
    assert(!crate::order::bytes_le(names[1 - k], names[k]));
    assert(crate::order::bytes_le(names[k], names[1 - k]));
    assert(name_order(names) =~= seq![k as usize, (1 - k) as usize]);
}

} // verus!

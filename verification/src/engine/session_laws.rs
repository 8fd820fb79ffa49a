//! What a session does, and in which order.

use vstd::prelude::*;
use vstd::utf8::encode_utf8;

use crate::engine::file_decision::climbs;
use crate::engine::progress::EventView;
use crate::engine::session::{
    counted_all, counted_events, filter_list_bytes, first_refused, link_count, link_steps,
    name_refused, name_text, pull_course, push_course, rules_bytes, SessionStage,
};
use crate::filelist::entry::EntryView;
use crate::fs::plan::{FsActionView, StepView};
use crate::options::{DeleteMode, OptionsView};
use crate::path::{component_end, component_end_bound, joined};
use crate::protocol::varint::int_bytes;
use crate::stats::TransferStats;

verus! {

/// A push sends its list and then the files, or shows the list where only that
/// is asked for; it ends with a goodbye. The other side gets the filter rules
/// first, exactly where it deletes files or prunes directories.
pub proof fn push_goes_in_order(o: OptionsView)
    ensures
        ({
            let c = push_course(o);
            let told = o.output.delete != DeleteMode::Off || o.tree.prune_empty_dirs;
            let at: int = if told {
                1
            } else {
                0
            };
            &&& c.len() == at + 3
            &&& told ==> c[0] == SessionStage::SendFilters
            &&& c[at] == SessionStage::SendList
            &&& o.output.list_only ==> c[at + 1] == SessionStage::ShowList
            &&& !o.output.list_only ==> c[at + 1] == SessionStage::SendFiles
            &&& c[at + 2] == SessionStage::Goodbye
        }),
{
}

/// A pull sends its rules and receives the list first, and ends the phases, reads
/// the statistics and says goodbye last.
pub proof fn pull_begins_and_ends_alike(o: OptionsView)
    ensures
        ({
            let c = pull_course(o);
            let n = c.len() as int;
            &&& n >= 6
            &&& c[0] == SessionStage::SendFilters
            &&& c[1] == SessionStage::ReceiveList
            &&& c[n - 3] == SessionStage::EndPhases
            &&& c[n - 2] == SessionStage::ReadStats
            &&& c[n - 1] == SessionStage::Goodbye
        }),
{
}

/// Where only the list is asked for, a pull shows it and does nothing else to the
/// destination.
pub proof fn listing_changes_nothing(o: OptionsView, i: int)
    requires
        o.output.list_only,
        0 <= i < pull_course(o).len(),
    ensures
        pull_course(o).len() == 6,
        pull_course(o)[2] == SessionStage::ShowList,
        pull_course(o)[i] != SessionStage::Delete && pull_course(o)[i] != SessionStage::ReceiveFiles
            && pull_course(o)[i] != SessionStage::MakeLinks && pull_course(o)[i]
            != SessionStage::Prune,
{
}

/// Files are received and links made in a pull, or only counted in a dry run.
/// Extraneous files are deleted before that or after it, as was asked for, and
/// never both; empty directories are pruned behind everything else.
pub proof fn pull_works_in_order(o: OptionsView)
    requires
        !o.output.list_only,
    ensures
        ({
            let c = pull_course(o);
            let n = c.len() as int;
            let first = o.output.delete == DeleteMode::Before || o.output.delete
                == DeleteMode::During || o.output.delete == DeleteMode::Excluded;
            let last = o.output.delete == DeleteMode::After;
            let at: int = if first {
                3
            } else {
                2
            };
            let behind: int = at + (if o.output.dry_run {
                1int
            } else {
                2
            });
            &&& first ==> c[2] == SessionStage::Delete
            &&& o.output.dry_run ==> c[at] == SessionStage::CountFiles
            &&& !o.output.dry_run ==> c[at] == SessionStage::ReceiveFiles && c[at + 1]
                == SessionStage::MakeLinks
            &&& last ==> c[behind] == SessionStage::Delete
            &&& !last ==> forall|i: int| behind <= i < n ==> #[trigger] c[i] != SessionStage::Delete
            &&& o.tree.prune_empty_dirs ==> c[n - 4] == SessionStage::Prune
            &&& !o.tree.prune_empty_dirs ==> forall|i: int|
                0 <= i < n ==> #[trigger] c[i] != SessionStage::Prune
        }),
{
}

/// A rule is sent as the length of its text in four bytes, and its text. What is
/// left out is marked by `- `, what is let in by `+ `; the list ends with a length
/// of zero.
pub proof fn rules_are_sent_with_their_length(
    front: Seq<char>,
    rules: Seq<Seq<char>>,
    rule: Seq<char>,
    o: OptionsView,
)
    requires
        encode_utf8(front + rule).len() <= i32::MAX,
    ensures
        rules_bytes(front, Seq::empty()) == Seq::<u8>::empty(),
        rules_bytes(front, rules.push(rule)) == rules_bytes(front, rules) + (int_bytes(
            encode_utf8(front + rule).len() as i32,
        ) + encode_utf8(front + rule)),
        filter_list_bytes(o) == rules_bytes(seq!['-', ' '], o.texts.exclude) + rules_bytes(
            seq!['+', ' '],
            o.texts.include_patterns,
        ) + rules_bytes(Seq::empty(), o.texts.filter) + int_bytes(0),
{
    assert(rules.push(rule).drop_last() =~= rules);
    reveal_strlit("- ");
    reveal_strlit("+ ");
    assert("- "@ =~= seq!['-', ' ']);
    assert("+ "@ =~= seq!['+', ' ']);
}

// ---------------------------------------------------------------------------
// Names
// ---------------------------------------------------------------------------

/// Two dots stand in a path as a component of their own.
pub open spec fn parent_part_at(t: Seq<u8>, i: int) -> bool {
    &&& 0 <= i
    &&& i + 2 <= t.len()
    &&& t[i] == 0x2E && t[i + 1] == 0x2E
    &&& i == 0 || t[i - 1] == 0x2F
    &&& i + 2 == t.len() || t[i + 2] == 0x2F
}

proof fn component_is_slashless(t: Seq<u8>, i: int)
    requires
        0 <= i <= t.len(),
    ensures
        forall|j: int| i <= j < component_end(t, i) ==> t[j] != 0x2F,
        component_end(t, i) < t.len() ==> t[component_end(t, i)] == 0x2F,
    decreases t.len() - i,
{
    if i < t.len() && t[i] != 0x2F {
        component_is_slashless(t, i + 1);
    }
}

proof fn climbing_from(t: Seq<u8>, i: int)
    requires
        0 <= i <= t.len() + 1,
        i == 0 || i > t.len() || t[i - 1] == 0x2F,
    ensures
        climbs(t, i) <==> exists|j: int| j >= i && #[trigger] parent_part_at(t, j),
    decreases t.len() + 1 - i,
{
    if i < t.len() {
        component_end_bound(t, i);
        component_is_slashless(t, i);
        let e = component_end(t, i);
        climbing_from(t, e + 1);
        let c = t.subrange(i, e);
        if c == seq![0x2Eu8, 0x2Eu8] {
            assert(c.len() == 2 && e == i + 2);
            assert(c[0] == t[i] && c[1] == t[i + 1]);
            assert(parent_part_at(t, i));
        }
        if exists|j: int| j >= i && #[trigger] parent_part_at(t, j) {
            let j = choose|j: int| j >= i && #[trigger] parent_part_at(t, j);
            if j == i {
                assert(t[i] != 0x2F && t[i + 1] != 0x2F);
                assert(e == i + 2) by {
                    if e < i + 2 {
                        assert(t[e] == 0x2F);
                    }
                    if e > i + 2 {
                        assert(t[i + 2] != 0x2F);
                    }
                }
                assert(c =~= seq![0x2Eu8, 0x2Eu8]);
            } else if j <= e {
                assert(t[j - 1] == 0x2F);
                assert(false);
            }
        }
    }
}

/// A name is refused exactly where it starts at the root, or two dots stand in it
/// as a component, wherever that is.
pub proof fn names_that_leave_are_refused(t: Seq<u8>)
    ensures
        name_refused(t) <==> (t.len() > 0 && t[0] == 0x2F) || exists|i: int| #[trigger]
            parent_part_at(t, i),
{
    climbing_from(t, 0);
    if exists|i: int| #[trigger] parent_part_at(t, i) {
        let i = choose|i: int| #[trigger] parent_part_at(t, i);
        assert(i >= 0 && parent_part_at(t, i));
    }
}

/// The first name that is refused is found, whatever comes after it.
pub proof fn first_refused_name_is_found(es: Seq<EntryView>, from: int, i: int)
    requires
        0 <= from <= i < es.len(),
        name_refused(name_text(es[i].name)),
        forall|j: int| from <= j < i ==> !name_refused(name_text(#[trigger] es[j].name)),
    ensures
        first_refused(es, from) == i,
    decreases i - from,
{
    if from < i {
        assert(!name_refused(name_text(es[from].name)));
        first_refused_name_is_found(es, from + 1, i);
    }
}

// ---------------------------------------------------------------------------
// Counting and linking
// ---------------------------------------------------------------------------

/// In a dry run each directory counts as made and each file as transferred, with
/// its size; other entries do not count.
pub proof fn dry_run_counts_files_and_directories(
    stats: TransferStats,
    es: Seq<EntryView>,
    e: EntryView,
)
    requires
        counted_all(stats, es).directories_created < u64::MAX,
        counted_all(stats, es).files_transferred < u64::MAX,
        counted_all(stats, es).total_size + e.len as u64 <= u64::MAX,
    ensures
        ({
            let a = counted_all(stats, es);
            let b = counted_all(stats, es.push(e));
            let t = e.mode & 0o170000;
            &&& t == 0o040000 ==> b == (TransferStats {
                directories_created: (a.directories_created + 1) as u64,
                ..a
            })
            &&& t == 0o100000 ==> b == (TransferStats {
                files_transferred: (a.files_transferred + 1) as u64,
                total_size: (a.total_size + e.len as u64) as u64,
                ..a
            })
            &&& t != 0o040000 && t != 0o100000 ==> b == a
        }),
        counted_all(stats, Seq::empty()) == stats,
{
    assert(es.push(e).drop_last() =~= es);
}

/// Each file of a dry run is told once, under its place in the list.
pub proof fn dry_run_tells_each_file(es: Seq<EntryView>, e: EntryView)
    requires
        es.len() <= i32::MAX,
    ensures
        e.mode & 0o170000 == 0o100000 ==> counted_events(es.push(e)) == counted_events(es).push(
            EventView::FileComplete {
                index: es.len() as i32,
                name: e.name,
                literal_bytes: e.len as u64,
                matched_bytes: 0,
            },
        ),
        e.mode & 0o170000 != 0o100000 ==> counted_events(es.push(e)) == counted_events(es),
        counted_events(Seq::empty()).len() == 0,
{
    assert(es.push(e).drop_last() =~= es);
}

/// Where links are preserved each one counts, and each that has a target is made
/// below the destination; none of that has to succeed.
pub proof fn links_are_made_at_the_end(
    o: OptionsView,
    dest: Seq<u8>,
    es: Seq<EntryView>,
    e: EntryView,
)
    ensures
        ({
            let kept = e.mode & 0o170000 == 0o120000 && o.archive.preserve_links;
            &&& kept && e.link_target.len() > 0 ==> link_steps(o, dest, es.push(e)) == link_steps(
                o,
                dest,
                es,
            ).push(
                StepView {
                    action: FsActionView::SymLink {
                        target: e.link_target,
                        path: joined(dest, name_text(e.name)),
                    },
                    required: false,
                },
            )
            &&& !kept || e.link_target.len() == 0 ==> link_steps(o, dest, es.push(e)) == link_steps(
                o,
                dest,
                es,
            )
            &&& link_count(o, es.push(e)) == link_count(o, es) + (if kept {
                1nat
            } else {
                0
            })
        }),
        link_count(o, Seq::empty()) == 0,
        link_steps(o, dest, Seq::empty()).len() == 0,
{
    assert(es.push(e).drop_last() =~= es);
}

} // verus!

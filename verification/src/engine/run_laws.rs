//! How data is put together and how tasks run.

use vstd::prelude::*;

use crate::engine::concurrent::{clamped, outcomes, RunView, TaskResult, TaskState};
use crate::engine::delete::{
    children_of, dir_removals, doomed, listing_views, names_of, prunable, DirTree,
};
use crate::engine::generator::signatures_bytes;
use crate::engine::progress::EventView;
use crate::engine::receiver::{block_of, put_together, TokenView};
use crate::engine::receiver_engine::parent_steps;
use crate::engine::sender::delta_bytes;
use crate::engine::transfer::{
    arrival, arrival_counts, arrival_events, arrival_steps, first_stage, Arrival, LocalActionView,
    LocalProbe, LocalView, Stage, StreamingView,
};
use crate::filelist::entry::EntryView;
use crate::filter::rule::passes;
use crate::fs::metadata::{DirEntry, DirEntryView};
use crate::fs::plan::FsActionView;
use crate::options::{DeleteMode, OptionsView};
use crate::path::joined;
use crate::path_laws::{parent_is_the_directory, plain_dir, plain_name};
use crate::protocol::sum::{sum_head_bytes, SumHead};
use crate::protocol::varint::int_bytes;
use crate::stats::TransferStats;
use crate::text::hex_text;

verus! {

// ---------------------------------------------------------------------------
// Data
// ---------------------------------------------------------------------------

/// A block of the basis is its bytes from the block's place on, as many as a block
/// has; the last one may be shorter, and behind the end there are none.
pub proof fn blocks_are_parts_of_the_basis(basis: Seq<u8>, blength: nat, index: nat)
    ensures
        ({
            let b = block_of(basis, blength, index as int);
            let start = index * blength;
            &&& start + blength <= basis.len() && blength > 0 ==> b == basis.subrange(
                start as int,
                (start + blength) as int,
            )
            &&& start < basis.len() < start + blength ==> b == basis.skip(start as int)
            &&& start >= basis.len() ==> b.len() == 0
        }),
{
    let start = index * blength;
    if start < basis.len() && basis.len() < start + blength {
        assert(basis.subrange(start as int, basis.len() as int) =~= basis.skip(start as int));
    }
}

/// Tokens add to the file in order: literal data as it is, a match the block that
/// it names. Behind the end nothing counts.
pub proof fn tokens_add_up(
    basis: Seq<u8>,
    blength: nat,
    tokens: Seq<TokenView>,
    n: nat,
)
    requires
        n < tokens.len(),
    ensures
        put_together(basis, blength, tokens, 0).len() == 0,
        ({
            let before = put_together(basis, blength, tokens, n);
            let after = put_together(basis, blength, tokens, n + 1);
            let ended = exists|i: int| 0 <= i < n && #[trigger] tokens[i] == TokenView::EndOfFile;
            let t = tokens[n as int];
            &&& ended ==> after == before
            &&& !ended && t is Data ==> after == before + t->Data_0
            &&& !ended && t is BlockMatch ==> after == before + block_of(
                basis,
                blength,
                t->BlockMatch_0 as int,
            )
            &&& !ended && t is EndOfFile ==> after == before
        }),
{
    let before = put_together(basis, blength, tokens, n);
    assert(before + Seq::<u8>::empty() =~= before);
}

/// A delta and a list of signatures begin with the index of the file; a delta ends
/// with the checksum of the whole.
pub proof fn messages_begin_with_the_index(
    index: i32,
    tokens: Seq<u8>,
    sum: Seq<u8>,
    head: SumHead,
    blocks: Seq<u8>,
)
    ensures
        delta_bytes(index, tokens, sum) == int_bytes(index) + tokens + sum,
        signatures_bytes(index, head, blocks) == int_bytes(index) + sum_head_bytes(head) + blocks,
{
}

/// Bytes are shown as two digits each, the high one first.
pub proof fn bytes_are_two_digits(bytes: Seq<u8>, b: u8)
    ensures
        ({
            let c = |n: int|
                if n < 10 {
                    (48 + n) as char
                } else {
                    (87 + n) as char
                };
            hex_text(bytes.push(b)) == hex_text(bytes) + seq![c((b / 16) as int), c((b % 16) as int)]
        }),
        hex_text(Seq::empty()).len() == 0,
{
    assert(bytes.push(b).drop_last() =~= bytes);
}

// ---------------------------------------------------------------------------
// Tasks
// ---------------------------------------------------------------------------

/// At least one task runs at once, and at most 64.
pub proof fn some_tasks_run_at_once(n: usize)
    ensures
        1 <= clamped(n) <= 64,
        1 <= n <= 64 ==> clamped(n) == n,
        n > 64 ==> clamped(n) == 64,
{
}

/// Tasks start in order. A task that ends leaves its result in its place, and no
/// other one changes.
pub proof fn tasks_keep_their_places<T>(r: RunView<T>, at: int, result: Option<T>, k: int)
    requires
        r.wf(),
        0 <= k < r.states.len(),
    ensures
        r.can_start() ==> {
            let s = r.started();
            &&& s.next == r.next + 1 && s.limit == r.limit && s.states.len() == r.states.len()
            &&& s.states[r.next as int] is Running
            &&& k != r.next ==> s.states[k] == r.states[k]
        },
        ({
            let f = r.finished(at, result);
            &&& f.next == r.next && f.limit == r.limit && f.states.len() == r.states.len()
            &&& k == at && r.states[k] is Running ==> f.states[k] == TaskState::Done(result)
            &&& k != at || !(r.states[k] is Running) ==> f.states[k] == r.states[k]
        }),
{
}

/// The results of a run are those of its tasks, in order; a task that left none
/// has an error.
pub proof fn results_are_in_order(s: Seq<TaskState<TaskResult>>, k: int)
    requires
        0 <= k < s.len() <= usize::MAX,
    ensures
        outcomes(s).len() == s.len(),
        s[k] is Done && s[k]->Done_0 is Some ==> outcomes(s)[k] == s[k]->Done_0->0@,
        !(s[k] is Done && s[k]->Done_0 is Some) ==> outcomes(s)[k].error is Some && outcomes(
            s,
        )[k].index == k && !outcomes(s)[k].transferred && outcomes(s)[k].bytes_transferred == 0,
{
}

/// A link or a copy that is only tried changes nothing yet.
pub proof fn tries_change_nothing(v: LocalView, i: int, p: LocalProbe, a: LocalActionView)
    requires
        a is TryLink || a is TryCopy,
    ensures
        v.decided(i, p, a) == v,
{
}

/// What is to be kept of an arrived file is set on it, in its place: times first, and
/// owner and group. Nothing is set that was not asked for.
pub proof fn arrived_file_gets_what_was_asked_for(
    o: OptionsView,
    dest: Seq<u8>,
    e: EntryView,
)
    requires
        !o.output.dry_run,
    ensures
        ({
            let steps = arrival_steps(o, dest, e, Arrival::File, true);
            let path = joined(dest, e.name);
            let t = if o.archive.preserve_times {
                1int
            } else {
                0
            };
            let w = if o.archive.preserve_owner {
                1int
            } else {
                0
            };
            &&& steps.len() == t + w
            &&& o.archive.preserve_times ==> steps[0].action == (FsActionView::SetTimes {
                path,
                mtime: e.mtime,
                nsec: e.mtime_nsec,
            })
            &&& o.archive.preserve_owner ==> steps[t].action == (FsActionView::SetOwner {
                path,
                uid: e.uid,
                gid: e.gid,
            })
        }),
{
}

/// An arrived file is told when it starts and when it is complete, with all its
/// bytes as literal; a link when it is made, and what is skipped as skipped.
pub proof fn arrivals_are_told(index: i32, e: EntryView, a: Arrival)
    ensures
        ({
            let ev = arrival_events(index, e, a);
            &&& a is File ==> ev == seq![
                EventView::FileStart { index, name: e.name, size: e.len },
                EventView::FileComplete {
                    index,
                    name: e.name,
                    literal_bytes: e.len as u64,
                    matched_bytes: 0,
                },
            ]
            &&& a is Symlink ==> ev == seq![
                EventView::FileComplete {
                    index,
                    name: e.name,
                    literal_bytes: 0,
                    matched_bytes: 0,
                },
            ]
            &&& a is Skipped ==> ev == seq![EventView::FileSkipped { index, name: e.name }]
            &&& !(a is File || a is Symlink || a is Skipped) ==> ev.len() == 0
        }),
{
}

// ---------------------------------------------------------------------------
// Deletion
// ---------------------------------------------------------------------------

/// Deletion before comes first; otherwise the first entry does, and where there is
/// none, deletion after or the end.
pub proof fn deletion_before_comes_first(n: nat, mode: DeleteMode)
    ensures
        first_stage(n, mode) is DeleteBefore <==> mode == DeleteMode::Before || mode
            == DeleteMode::Excluded,
        mode != DeleteMode::Before && mode != DeleteMode::Excluded && n > 0 ==> first_stage(n, mode)
            == Stage::Item(0),
        mode == DeleteMode::After && n == 0 ==> first_stage(n, mode) is DeleteAfter,
        (mode == DeleteMode::Off || mode == DeleteMode::During) && n == 0 ==> first_stage(n, mode)
            is Finished,
{
}

/// Before and after the work the destination is cleaned; in between, the directory
/// that was just made.
pub proof fn the_right_directory_is_cleaned(v: LocalView)
    ensures
        v.stage is DeleteBefore || v.stage is DeleteAfter ==> v.cleaned_dir() == Some(v.dest),
        v.stage is DeleteIn ==> v.cleaned_dir() == Some(
            joined(v.dest, v.entries[v.stage->DeleteIn_0 as int].name),
        ),
        v.stage is Item || v.stage is Data || v.stage is Finished ==> v.cleaned_dir() is None,
{
}

/// Whatever is cleaned, nothing goes that the list names, nor, unless everything
/// excluded is to go, what the rules exclude. Where a directory could not be read
/// nothing goes.
pub proof fn cleaning_spares_what_is_listed(v: LocalView, l: &[DirEntry], k: int)
    requires
        0 <= k < l@.len(),
    ensures
        ({
            let d = l@[k]@;
            let gone = v.gone(Some(l));
            let dir = d.metadata.mode & 0o170000 == 0o040000;
            let excluded_too = v.stage is DeleteBefore && v.o.output.delete == DeleteMode::Excluded;
            let listed = if v.stage is DeleteIn {
                children_of(v.entries, v.entries[v.stage->DeleteIn_0 as int].name).contains(d.name)
            } else {
                exists|i: int| 0 <= i < v.entries.len() && (#[trigger] v.entries[i]).name == d.name
            };
            &&& listed ==> !gone.contains(d)
            &&& !listed && excluded_too ==> gone.contains(d)
            &&& !listed && !excluded_too && passes(v.rules, d.name, dir) ==> gone.contains(d)
            &&& !excluded_too && !passes(v.rules, d.name, dir) ==> !gone.contains(d)
            &&& v.gone(None).len() == 0
        }),
{
    let d = l@[k]@;
    let ls = listing_views(l@);
    let all = v.stage == Stage::DeleteBefore && v.o.output.delete == DeleteMode::Excluded;
    let f = |x: DirEntryView| doomed(x, v.kept(), v.rules, all);
    let gone = v.gone(Some(l));
    assert(ls[k] == d);
    if gone.contains(d) {
        ls.lemma_filter_pred(f, gone.index_of(d));
    }
    if f(d) {
        ls.lemma_filter_contains(f, k);
    }
    if !(v.stage is DeleteIn) {
        let names = names_of(v.entries);
        if exists|i: int| 0 <= i < v.entries.len() && (#[trigger] v.entries[i]).name == d.name {
            let i = choose|i: int|
                0 <= i < v.entries.len() && (#[trigger] v.entries[i]).name == d.name;
            assert(names[i] == d.name);
        }
        if names.contains(d.name) {
            let i = names.index_of(d.name);
            assert(v.entries[i].name == d.name);
        }
    }
}

/// What was deleted is counted, and nothing else.
pub proof fn deletions_are_counted(v: LocalView, n: nat)
    requires
        v.stats.files_deleted + n <= u64::MAX,
    ensures
        ({
            let w = v.cleaned(n);
            &&& v.stage is DeleteIn ==> w.stats.files_deleted == v.stats.files_deleted + n
            &&& v.stage is DeleteBefore || v.stage is DeleteAfter ==> w.stats.files_deleted == n
            &&& w.stats == (TransferStats { files_deleted: w.stats.files_deleted, ..v.stats })
            &&& w.entries == v.entries && w.dest == v.dest && w.rules == v.rules && w.o == v.o
            &&& w.tracker == v.tracker
            &&& v.stage is DeleteAfter ==> w.stage is Finished
            &&& v.stage is DeleteIn && v.stage->DeleteIn_0 + 1 < v.entries.len() <= usize::MAX
                ==> w.stage == Stage::Item((v.stage->DeleteIn_0 + 1) as usize)
            &&& v.stage is DeleteBefore && v.entries.len() > 0 ==> w.stage == Stage::Item(0)
        }),
{
}

/// A directory is bare where all that it holds are bare directories, and only those
/// are pruned, what is inside them first.
pub proof fn only_bare_directories_are_pruned(dir: DirTree, n: nat, path: Seq<u8>)
    requires
        0 < n <= dir.children@.len(),
    ensures
        ({
            let child = dir.children@[n - 1];
            let at = joined(path, child.name@);
            let (before, bare) = prunable(dir, (n - 1) as nat, path);
            let (inside, empty) = prunable(child, child.children@.len(), at);
            let (all, still) = prunable(dir, n, path);
            &&& still <==> bare && child.is_dir && empty
            &&& !child.is_dir ==> all == before
            &&& child.is_dir && empty ==> all == before + inside + seq![at]
            &&& child.is_dir && !empty ==> all == before + inside
            &&& prunable(dir, 0, path).0.len() == 0 && prunable(dir, 0, path).1
        }),
{
    let child = dir.children@[n - 1];
    let at = joined(path, child.name@);
    let (before, bare) = prunable(dir, (n - 1) as nat, path);
    let (inside, empty) = prunable(child, child.children@.len(), at);
    assert(before + inside.push(at) =~= before + inside + seq![at]);
}

/// A parent that is missing is made, as a directory that everybody may search; one
/// that is there is left alone.
pub proof fn missing_parent_is_made(d: Seq<u8>, b: Seq<u8>)
    requires
        plain_dir(d),
        plain_name(b),
    ensures
        ({
            let path = d + seq![0x2Fu8] + b;
            let steps = parent_steps(path, false);
            &&& parent_steps(path, true).len() == 0
            &&& steps.len() == 1 && steps[0].required
            &&& steps[0].action == (FsActionView::MakeDir { path: d, mode: 0o755 })
        }),
{
    parent_is_the_directory(d, b);
}

/// Entries that arrive are numbered one after the other, without those that the
/// rules drop; each is counted.
pub proof fn arrivals_are_numbered(v: StreamingView, e: EntryView)
    requires
        v.index < i32::MAX,
    ensures
        arrival(v.o, v.rules, e) is Filtered ==> v.after(e).index == v.index,
        !(arrival(v.o, v.rules, e) is Filtered) ==> v.after(e).index == v.index + 1,
        v.after(e).stats == v.stats.plus(arrival_counts(e, arrival(v.o, v.rules, e))),
        v.after(e).o == v.o && v.after(e).dest == v.dest && v.after(e).rules == v.rules,
{
}

/// Pruned directories are removed in the order in which they were found.
pub proof fn pruned_directories_are_removed(paths: Seq<Seq<u8>>, k: int)
    requires
        0 <= k < paths.len(),
    ensures
        dir_removals(paths).len() == paths.len(),
        dir_removals(paths)[k].action == (FsActionView::RemoveDir { path: paths[k] }),
{
}

} // verus!

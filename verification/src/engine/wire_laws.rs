//! What the two ends of a transfer over the wire do for each other.

use vstd::prelude::*;

use vstd::utf8::encode_utf8;

use crate::engine::progress::{after_events, EventView};
use crate::engine::receiver_engine::{ActionView, HandledKind};
use crate::engine::wire_receiver::{
    ask_bytes, handled_counts, handled_events, item_of, received_counts, GeneratorItemView,
    ReceiverView,
};
use crate::engine::wire_sender::{
    announce_bytes, answer_head, dry_counts, request_at, sent_counts, Request, SenderActionView,
    SenderView,
};
use crate::engine::wire_transfer::{
    done_bytes, first_ndx, local_places, ndx_entries, phase_rounds, receiver_goodbye_turns,
    sender_goodbye_turns, server_receiver_goodbye_turns, server_sender_goodbye_turns, stats_bytes,
    Turn, WireFormat,
};
use crate::filelist::entry::EntryView;
use crate::path::joined;
use crate::protocol::sum::{sum_head_bytes, SumHead};
use crate::protocol::varint::{ndx_at, ndx_bytes, varlong30_bytes, NdxState};
use crate::stats::TransferStats;
use crate::text::lossy_text;

verus! {

/// Flags stand behind an index from protocol 29 on; an extra round of goodbyes
/// is held from protocol 31 on.
pub proof fn format_goes_by_version(w: WireFormat)
    ensures
        w.item_flags() <==> w.version >= 29,
        w.exit_sync() <==> w.version >= 31,
{
}

/// A file that is asked for is sent, under the entry that its index stands for;
/// a dry run counts it only. What has no entry, or is no regular file, is passed
/// over.
pub proof fn asked_file_is_sent(
    v: SenderView,
    ndx: i32,
    flags: u16,
    w: WireFormat,
    es: Seq<EntryView>,
    map: Map<i32, usize>,
    dry_run: bool,
)
    requires
        w.version < 29 || flags & 0x8000 != 0,
    ensures
        ({
            let a = v.action(Request::File { ndx, flags }, w, es, map, dry_run);
            let known = map.dom().contains(ndx) && es[map[ndx] as int].mode & 0o170000 == 0o100000;
            &&& !known ==> a is Nothing
            &&& known && dry_run ==> a is Counted
            &&& known && !dry_run ==> a == (SenderActionView::Send { entry: map[ndx], ndx, flags })
        }),
{
}

/// A request that wants no data is answered by the same index and flags.
pub proof fn request_without_data_is_echoed(
    v: SenderView,
    ndx: i32,
    flags: u16,
    w: WireFormat,
    es: Seq<EntryView>,
    map: Map<i32, usize>,
    dry_run: bool,
)
    requires
        w.version >= 29,
        flags & 0x8000 == 0,
        map.dom().contains(ndx),
        es[map[ndx] as int].mode & 0o170000 == 0o100000,
    ensures
        ({
            let a = v.action(Request::File { ndx, flags }, w, es, map, dry_run);
            let head = ndx_bytes(ndx, v.answered, w.version);
            &&& a is Reply
            &&& a->Reply_reply.len() >= head.len() + 2
            &&& a->Reply_reply.take(head.len() as int) == head
            &&& a->Reply_reply[head.len() as int] == flags % 256
            &&& a->Reply_reply[head.len() as int + 1] == flags / 256
        }),
{
    crate::protocol::laws::low_bytes_come_first(flags as nat);
    let a = v.action(Request::File { ndx, flags }, w, es, map, dry_run);
    let head = ndx_bytes(ndx, v.answered, w.version);
    assert(a->Reply_reply.take(head.len() as int) =~= head);
}

/// Markers are passed over. The end of each phase is answered by the same marker,
/// and the end of the last one ends the work.
pub proof fn ends_are_answered(
    v: SenderView,
    w: WireFormat,
    es: Seq<EntryView>,
    map: Map<i32, usize>,
    dry_run: bool,
)
    ensures
        v.action(Request::Marker, w, es, map, dry_run) is Nothing,
        v.phase >= w.phase_count ==> v.action(Request::Done, w, es, map, dry_run) == (
        SenderActionView::Finished { reply: done_bytes(w.version) }),
        v.phase < w.phase_count ==> v.action(Request::Done, w, es, map, dry_run) == (
        SenderActionView::Reply { reply: done_bytes(w.version) }),
        v.phase < u32::MAX ==> v.after(Request::Done, v.asked, w, es, map, dry_run).phase == v.phase
            + 1,
{
}

/// What a request asks for: -1 ends a phase, lower numbers are markers, others
/// are files.
pub proof fn requests_go_by_their_index(s: Seq<u8>, p: int, st: NdxState, w: WireFormat)
    requires
        ndx_at(s, p, st, w.version) is Ok,
        request_at(s, p, st, w) is Ok,
    ensures
        ({
            let ndx = ndx_at(s, p, st, w.version)->Ok_0.0;
            let r = request_at(s, p, st, w)->Ok_0.0;
            &&& ndx == -1 <==> r is Done
            &&& ndx < -1 <==> r is Marker
            &&& ndx >= 0 <==> r is File
            &&& r is File ==> r->ndx == ndx
            &&& r is File && w.version < 29 ==> r->flags == 0
        }),
{
}

/// A file that was sent counts once, with its size. Literal and matched data are
/// counted apart, and only literal data as sent.
pub proof fn sent_file_counts_once(v: SenderView, ndx: i32, e: EntryView, literal: u64, matched: u64)
    ensures
        ({
            let c = sent_counts(e, literal, matched);
            &&& c.files_transferred == 1 && c.total_size == e.len as u64
            &&& c.literal_data == literal && c.matched_data == matched && c.bytes_sent == literal
            &&& c.bytes_received == 0 && c.files_skipped == 0 && c.files_deleted == 0
            &&& c.directories_created == 0 && c.symlinks == 0 && c.total_files == 0
        }),
        ({
            let c = dry_counts(e);
            &&& c.files_transferred == 1 && c.total_size == e.len as u64
            &&& c.literal_data == 0 && c.matched_data == 0 && c.bytes_sent == 0
        }),
        v.sent(ndx, e, literal, matched).phase == v.phase,
{
}

/// The sending end tells of a file when it announces it, with its size, and when it
/// has sent it, with what was literal and what matched.
pub proof fn sender_tells_of_each_file(
    v: SenderView,
    ndx: i32,
    e: EntryView,
    literal: u64,
    matched: u64,
    version: u8,
)
    requires
        v.tracker.listened,
    ensures
        v.announced(ndx, e, version).tracker.pending == v.tracker.pending.push(
            EventView::FileStart { index: ndx, name: e.name, size: e.len },
        ),
        v.announced(ndx, e, version).stats == v.stats,
        v.announced(ndx, e, version).phase == v.phase,
        v.sent(ndx, e, literal, matched).tracker.pending == v.tracker.pending.push(
            EventView::FileComplete {
                index: ndx,
                name: e.name,
                literal_bytes: literal,
                matched_bytes: matched,
            },
        ),
        v.sent(ndx, e, literal, matched).stats == v.stats.plus(sent_counts(e, literal, matched)),
        v.sent(ndx, e, literal, matched).answered == v.answered,
{
    reveal_with_fuel(after_events, 2);
    let a = seq![EventView::FileStart { index: ndx, name: e.name, size: e.len }];
    assert(a.drop_last() =~= Seq::<EventView>::empty());
    let b = seq![
        EventView::FileComplete {
            index: ndx,
            name: e.name,
            literal_bytes: literal,
            matched_bytes: matched,
        },
    ];
    assert(b.drop_last() =~= Seq::<EventView>::empty());
}

/// The receiving end tells of a file when it asks for it, and when it has it; then
/// the file is counted.
pub proof fn receiver_tells_of_each_file(
    v: ReceiverView,
    entry_idx: usize,
    blength: usize,
    es: Seq<EntryView>,
    literal: u64,
)
    requires
        v.tracker.listened,
        entry_idx < es.len() <= i32::MAX,
    ensures
        ({
            let e = es[entry_idx as int];
            let asked = v.after(GeneratorItemView::Transfer { entry_idx, blength }, es);
            let got = v.received(entry_idx, e, literal);
            &&& asked.tracker.pending == v.tracker.pending.push(
                EventView::FileStart { index: entry_idx as i32, name: e.name, size: e.len },
            )
            &&& got.tracker.pending == v.tracker.pending.push(
                EventView::FileComplete {
                    index: entry_idx as i32,
                    name: e.name,
                    literal_bytes: literal,
                    matched_bytes: 0,
                },
            )
            &&& got.stats == v.stats.plus(received_counts(e, literal))
            &&& got.deferred == v.deferred
        }),
{
    reveal_with_fuel(after_events, 2);
    let e = es[entry_idx as int];
    let a = seq![EventView::FileStart { index: entry_idx as i32, name: e.name, size: e.len }];
    assert(a.drop_last() =~= Seq::<EventView>::empty());
    let b = seq![
        EventView::FileComplete {
            index: entry_idx as i32,
            name: e.name,
            literal_bytes: literal,
            matched_bytes: 0,
        },
    ];
    assert(b.drop_last() =~= Seq::<EventView>::empty());
}

/// A file that was received counts once, with its size, and its literal data as
/// received.
pub proof fn received_file_counts_once(e: EntryView, literal: u64)
    ensures
        ({
            let c = received_counts(e, literal);
            &&& c.files_transferred == 1 && c.total_size == e.len as u64
            &&& c.literal_data == literal && c.bytes_received == literal
            &&& c.bytes_sent == 0 && c.matched_data == 0 && c.files_skipped == 0
            &&& c.directories_created == 0 && c.symlinks == 0 && c.files_deleted == 0
        }),
{
}

/// What is handled without data counts as what it is: a directory, a link, or a
/// file; one from an alternate directory counts its size as matched.
pub proof fn handled_entries_count_as_what_they_are(kind: HandledKind, e: EntryView)
    ensures
        ({
            let c = handled_counts(kind, e);
            let alternate = kind == HandledKind::LinkDest || kind == HandledKind::CopyDest;
            &&& c.directories_created == (if kind == HandledKind::Directory { 1u64 } else { 0 })
            &&& c.symlinks == (if kind == HandledKind::Symlink { 1u64 } else { 0 })
            &&& c.files_transferred == (if alternate || kind == HandledKind::DryRun { 1u64 } else {
                0
            })
            &&& c.matched_data == (if alternate { e.len as u64 } else { 0 })
            &&& c.total_size == (if kind == HandledKind::DryRun { e.len as u64 } else { 0 })
            &&& c.literal_data == 0 && c.bytes_received == 0 && c.bytes_sent == 0
        }),
{
}

/// Each of them but a directory is told once, by its name and place.
pub proof fn handled_entries_are_told(index: i32, kind: HandledKind, e: EntryView)
    ensures
        ({
            let ev = handled_events(index, kind, e);
            &&& kind == HandledKind::Directory <==> ev.len() == 0
            &&& ev.len() <= 1
            &&& ev.len() == 1 ==> {
                &&& ev[0] is FileComplete
                &&& ev[0]->FileComplete_index == index
                &&& ev[0]->FileComplete_name == e.name
                &&& ev[0]->literal_bytes == (if kind == HandledKind::DryRun {
                    e.len as u64
                } else {
                    0
                })
                &&& ev[0]->matched_bytes == (if kind == HandledKind::LinkDest || kind
                    == HandledKind::CopyDest {
                    e.len as u64
                } else {
                    0
                })
            }
        }),
{
}

/// The receiver hears of what was handled, what waits, and what was asked for,
/// each under the entry's place; of what was skipped it hears nothing.
pub proof fn receiver_hears_of_the_entry(entry_idx: usize, a: ActionView, blength: usize)
    ensures
        ({
            let item = item_of(entry_idx, a, blength);
            &&& a is Handled ==> item == Some(
                GeneratorItemView::Handled { entry_idx, kind: a->kind },
            )
            &&& a is DeferredHardlink ==> item == Some(
                GeneratorItemView::DeferredHardlink { entry_idx, source_name: a->source_name },
            )
            &&& a is NeedsTransfer ==> item == Some(
                GeneratorItemView::Transfer { entry_idx, blength },
            )
            &&& a is Skipped || a is TryLink || a is TryCopy ==> item is None
        }),
{
}

/// Entries that wait for others are kept, in order, and nothing else is.
pub proof fn waiting_entries_are_kept(
    v: ReceiverView,
    item: GeneratorItemView,
    es: Seq<EntryView>,
)
    ensures
        item is DeferredHardlink ==> v.after(item, es).deferred == v.deferred.push(
            (item->DeferredHardlink_entry_idx, item->source_name),
        ) && v.after(item, es).stats == v.stats,
        !(item is DeferredHardlink) ==> v.after(item, es).deferred == v.deferred,
        item is Done ==> v.after(item, es) == v,
        item is Transfer ==> v.after(item, es).stats == v.stats,
{
}

/// A request is the index, from protocol 29 on the transfer flag, the head of the
/// signatures, and, unless data is appended, the signatures.
pub proof fn request_carries_signatures(
    ndx: i32,
    head: SumHead,
    blocks: Seq<u8>,
    append: bool,
    st: NdxState,
    w: WireFormat,
)
    ensures
        ask_bytes(ndx, head, blocks, append, st, w) == ndx_bytes(ndx, st, w.version) + (if w.version
            >= 29 {
            seq![0x00u8, 0x80u8]
        } else {
            Seq::empty()
        }) + sum_head_bytes(head) + (if append {
            Seq::empty()
        } else {
            blocks
        }),
{
    crate::protocol::laws::low_bytes_come_first(0x8000);
    assert(crate::protocol::wire::le_bytes(0x8000, 2) =~= seq![0x00u8, 0x80u8]);
}

/// An answer repeats the head of the signatures, or an empty one where there were
/// no blocks.
pub proof fn answer_repeats_the_head(
    ndx: i32,
    flags: u16,
    head: SumHead,
    st: NdxState,
    w: WireFormat,
)
    ensures
        head.count != 0 ==> answer_head(head) == head,
        head.count == 0 ==> answer_head(head) == (SumHead {
            count: 0,
            blength: 0,
            s2length: 0,
            remainder: 0,
        }),
        ({
            let b = announce_bytes(ndx, flags, head, st, w);
            let i = ndx_bytes(ndx, st, w.version);
            &&& b.take(i.len() as int) == i
            &&& b.skip(b.len() - 16) == sum_head_bytes(answer_head(head))
            &&& b.len() == i.len() + 16 + (if w.version >= 29 {
                2int
            } else {
                0
            })
        }),
{
    crate::protocol::laws::head_is_four_integers(answer_head(head));
    crate::protocol::wire::le_bytes_len(flags as nat, 2);
    let b = announce_bytes(ndx, flags, head, st, w);
    let i = ndx_bytes(ndx, st, w.version);
    assert(b.take(i.len() as int) =~= i);
    assert(b.skip(b.len() - 16) =~= sum_head_bytes(answer_head(head)));
}

/// Indices count the entries of a list in order, from 1 where it comes by
/// directory and from 0 else; there are no others.
pub proof fn indices_count_the_entries(incremental: bool, recursive: bool, n: nat, k: i32)
    requires
        n < i32::MAX,
    ensures
        ({
            let start = first_ndx(incremental, recursive);
            let m = ndx_entries(start, n);
            &&& start == (if incremental && recursive {
                1int
            } else {
                0
            })
            &&& m.dom().contains(k) <==> start <= k < start + n
            &&& m.dom().contains(k) ==> m[k] == k - start
        }),
{
}

/// A single directory is the root of what is sent from it; else the sources stand
/// for themselves.
pub proof fn files_lie_below_a_single_directory(sources: Seq<Seq<u8>>, dir: bool, name: Seq<u8>)
    ensures
        sources.len() != 1 || !dir ==> local_places(sources, dir, name) == sources,
        sources.len() == 1 && dir ==> local_places(sources, dir, name) == seq![
            joined(sources[0], encode_utf8(lossy_text(name))),
        ],
{
}

/// The statistics are what was read, what was sent and the size of all files, and
/// from protocol 29 on two times.
pub proof fn statistics_come_in_order(stats: TransferStats, w: WireFormat)
    ensures
        ({
            let v = w.version;
            let three = varlong30_bytes(0, 3, v) + varlong30_bytes(stats.bytes_sent as i64, 3, v)
                + varlong30_bytes(stats.total_size as i64, 3, v);
            &&& v < 29 ==> stats_bytes(stats, w) == three
            &&& v >= 29 ==> stats_bytes(stats, w) == three + (varlong30_bytes(0, 3, v)
                + varlong30_bytes(0, 3, v))
        }),
{
    let v = w.version;
    let three = varlong30_bytes(0, 3, v) + varlong30_bytes(stats.bytes_sent as i64, 3, v)
        + varlong30_bytes(stats.total_size as i64, 3, v);
    if v < 29 {
        assert(stats_bytes(stats, w) =~= three);
    }
}

/// Who speaks first when the two ends part: the receiving one, and from protocol
/// 31 on there is one more exchange.
pub proof fn goodbyes_take_turns(w: WireFormat)
    ensures
        sender_goodbye_turns(w)[0] == Turn::Await,
        receiver_goodbye_turns(w)[0] == Turn::Send,
        w.version < 31 ==> sender_goodbye_turns(w) == seq![Turn::Await] && receiver_goodbye_turns(w)
            == seq![Turn::Send, Turn::Await, Turn::Send],
        w.version >= 31 ==> sender_goodbye_turns(w) == seq![Turn::Await, Turn::Send, Turn::Await]
            && receiver_goodbye_turns(w) == seq![Turn::Send, Turn::Await, Turn::Send, Turn::Send],
        server_receiver_goodbye_turns(w)[0] == Turn::Send,
        server_sender_goodbye_turns(w)[0] == Turn::Send,
{
}

/// There is a round for each phase and one to end, and where lists come by
/// directory one for each list but the first.
pub proof fn rounds_are_phases_and_lists(w: WireFormat, lists: usize)
    requires
        lists <= u32::MAX,
    ensures
        !w.incremental || lists == 0 ==> phase_rounds(w, lists) == w.phase_count + 1,
        w.incremental && lists > 0 ==> phase_rounds(w, lists) == w.phase_count + lists,
{
}

} // verus!

//! How a file list goes over the wire and comes out of it.

use vstd::prelude::*;

use crate::error::ProtocolErrorView;
use crate::filelist::codec::{entry_bytes, RecordView};
use crate::filelist::codec::fields::end_bytes;
use crate::filelist::codec::hlink::HardLinkAction;
use crate::filelist::codec::options::FileListOptions;
use crate::filelist::codec::state::DeltaView;
use crate::filelist::entry::EntryView;
use crate::filelist::exchange::{
    batch_stream, by_directory, file_list_bytes, indices_from, lists_stream, numbered, received,
};
use crate::filelist::idlist::id_lists_bytes;
use crate::filelist::incremental::sub_list_at;
use crate::filelist::list::{entries_bytes, got_list, list_at, next_record, sent_action, sent_state};
use crate::filelist::sort::{sorted, sorted_numbered};
use crate::options::OptionsView;
use crate::protocol::handshake::NegotiatedProtocol;
use crate::protocol::varint::{ndx_at, ndx_bytes, ndx_read_next, NdxState};

verus! {

/// Lists come directory by directory only from protocol 30 on, where both ends can
/// and the transfer is recursive.
pub proof fn lists_by_directory_are_agreed_on(p: NegotiatedProtocol, o: OptionsView)
    ensures
        by_directory(p, o) <==> p.version >= 30 && p.compat_flags & 0x1 != 0 && o.archive.recursive,
{
}

/// A list is its records and its end. Owners follow unless numbers are enough; a
/// list by directory is ended by an index of its own.
pub proof fn list_is_records_and_end(es: Seq<EntryView>, p: NegotiatedProtocol, o: OptionsView)
    ensures
        ({
            let f = FileListOptions::negotiated(p, o);
            let whole = file_list_bytes(es, p, o);
            &&& by_directory(p, o) ==> whole == entries_bytes(es, f, 1) + end_bytes(0, f)
                + ndx_bytes(-2i32, NdxState::initial(), f.protocol_version)
            &&& !by_directory(p, o) && p.version >= 30 && o.tree.numeric_ids ==> whole
                == entries_bytes(es, f, 0) + end_bytes(0, f)
            &&& !by_directory(p, o) && p.version >= 30 && !o.tree.numeric_ids ==> whole
                == entries_bytes(es, f, 0) + end_bytes(0, f) + id_lists_bytes(es, f)
        }),
{
    let f = FileListOptions::negotiated(p, o);
    let a = entries_bytes(es, f, 0) + end_bytes(0, f);
    assert(a + Seq::<u8>::empty() =~= a);
}

/// Records come in order. Each is written against the entry before it.
pub proof fn records_build_on_the_one_before(
    es: Seq<EntryView>,
    e: EntryView,
    o: FileListOptions,
    start: int,
)
    ensures
        entries_bytes(Seq::empty(), o, start).len() == 0,
        entries_bytes(es.push(e), o, start) == entries_bytes(es, o, start) + entry_bytes(
            e,
            sent_state(es),
            o,
            sent_action(es, e, o, start),
        ),
        ({
            let st = sent_state(es.push(e));
            &&& st.prev_name == e.name && st.prev_mtime == e.mtime && st.prev_mode == e.mode
            &&& st.prev_uid == e.uid && st.prev_gid == e.gid && st.prev_rdev == e.rdev
            &&& st.prev_rdev_major == (e.rdev / 256) % 0x1_0000_0000
            &&& st.prev_user_name == e.user_name && st.prev_group_name == e.group_name
        }),
        !o.preserve_hard_links ==> sent_action(es, e, o, start) == HardLinkAction::NotHardLinked,
{
    assert(es.push(e).drop_last() =~= es);
}

/// What is received is as long as what was sent, and each entry has the name that
/// it had.
pub proof fn names_arrive(es: Seq<EntryView>, o: FileListOptions, start: int, k: int)
    requires
        0 <= k < es.len(),
    ensures
        got_list(es, o, start).len() == es.len(),
        got_list(es, o, start)[k].name == es[k].name,
    decreases es.len(),
{
    if es.len() > 0 {
        let h = es.drop_last();
        if k < h.len() {
            names_arrive(h, o, start, k);
        } else if h.len() > 0 {
            names_arrive(h, o, start, 0);
        }
    }
}

/// Without hard links an entry arrives with its size, time and mode.
pub proof fn entries_arrive(es: Seq<EntryView>, o: FileListOptions, start: int, k: int)
    requires
        0 <= k < es.len(),
        !o.preserve_hard_links,
    ensures
        got_list(es, o, start).len() == es.len(),
        got_list(es, o, start)[k].len == es[k].len,
        got_list(es, o, start)[k].mtime == es[k].mtime,
        got_list(es, o, start)[k].mode == es[k].mode,
        o.preserve_uid ==> got_list(es, o, start)[k].uid == es[k].uid,
        o.preserve_gid ==> got_list(es, o, start)[k].gid == es[k].gid,
        o.preserve_links && es[k].mode & 0o170000 == 0o120000 ==> got_list(
            es,
            o,
            start,
        )[k].link_target == es[k].link_target,
    decreases es.len(),
{
    if es.len() > 0 {
        let h = es.drop_last();
        if k < h.len() {
            entries_arrive(h, o, start, k);
        } else if h.len() > 0 {
            entries_arrive(h, o, start, 0);
        }
    }
}

/// Entries that are handed on one by one are those of the whole list, in the order
/// of the wire; where the list cannot be read, neither can the stream.
pub proof fn stream_has_the_entries_of_the_list(
    s: Seq<u8>,
    p: int,
    st: DeltaView,
    o: FileListOptions,
    prev: Seq<EntryView>,
)
    requires
        0 <= p,
    ensures
        match list_at(s, p, st, o, prev) {
            Ok(l) => {
                let b = batch_stream(s, p, st, o, prev);
                b.entries == l.entries && (!o.trailing_io_error() ==> b.end == Ok::<
                    int,
                    ProtocolErrorView,
                >(l.end))
            },
            Err(e) => batch_stream(s, p, st, o, prev).end == Err::<int, ProtocolErrorView>(e),
        },
    decreases
            (if p < s.len() {
                s.len() - p
            } else {
                0
            }),
{
    if p < s.len() {
        crate::filelist::list::record_goes_on(s, p, st, o, prev);
        match next_record(s, p, st, o, prev) {
            Ok((RecordView::Entry(e, _), q)) => {
                stream_has_the_entries_of_the_list(s, q, st.after(e), o, prev.push(e));
            },
            _ => {},
        }
    }
}

/// A list by directory that is over after its first directory is streamed as that
/// directory's entries. A further directory adds its entries behind, numbered from
/// one past the next number.
pub proof fn directories_are_streamed_in_order(
    s: Seq<u8>,
    p: int,
    nst: NdxState,
    next: int,
    o: FileListOptions,
    prev: Seq<EntryView>,
)
    requires
        0 <= p < s.len(),
        ndx_at(s, p, nst, o.protocol_version) is Ok,
    ensures
        ({
            let (ndx, q) = ndx_at(s, p, nst, o.protocol_version)->Ok_0;
            let r = lists_stream(s, p, nst, next, o, prev);
            let l = sub_list_at(s, q, DeltaView::initial(), o, next as i32);
            &&& ndx == -2 ==> r.entries == prev && r.end == Ok::<int, ProtocolErrorView>(q)
            &&& ndx >= 0 || ndx == -1 ==> r.entries == prev && r.end is Err
            &&& ndx <= -101 && l is Ok ==> r == lists_stream(
                s,
                l->Ok_0.end,
                ndx_read_next(s[p], ndx, nst, o.protocol_version),
                next + l->Ok_0.entries.len() + 1,
                o,
                prev + l->Ok_0.entries,
            )
            &&& ndx <= -101 && l is Err ==> r.entries == prev && r.end is Err
        }),
{
}

/// Entries of one list are numbered in canonical order, from the start on.
pub proof fn entries_are_numbered_in_order(es: Seq<EntryView>, start: int, k: int)
    requires
        0 <= k < es.len(),
        0 <= start,
        start + es.len() <= i32::MAX,
    ensures
        numbered(es, start).len() == es.len(),
        numbered(es, start)[k].0 == start + k,
        numbered(es, start)[k].1 == sorted(es)[k],
        indices_from(start, es.len()).len() == es.len(),
        indices_from(start, es.len())[k] == start + k,
{
}

/// What was received is in canonical order, each entry with the number under which
/// it came.
pub proof fn entries_keep_their_numbers(
    all: Seq<(i32, EntryView)>,
    start: i32,
    lists: nat,
    k: int,
)
    requires
        0 <= k < all.len(),
    ensures
        ({
            let r = received(all, start, lists);
            &&& r.entries.len() == all.len()
            &&& r.entry_ndx.len() == all.len()
            &&& all.contains((r.entry_ndx[k], r.entries[k]))
            &&& r.ndx_start == start
            &&& r.num_flists == lists
        }),
{
    let s = sorted_numbered(all);
    crate::order::sorting_keeps(all, crate::filelist::sort::numbered_order());
    crate::order::sorted_contains(all, crate::filelist::sort::numbered_order(), k);
    assert(s[k] == (s[k].0, s[k].1));
}

} // verus!

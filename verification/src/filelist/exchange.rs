//! Sending and receiving whole file lists.
//!
//! A list goes over the wire at once, with the lists of user and group names
//! behind it, or, where both sides can and the transfer is recursive,
//! directory by directory.

use vstd::prelude::*;

use crate::error::{ProtocolError, ProtocolErrorView};
use crate::filelist::codec::fields::{end_bytes, write_end_of_flist};
use crate::filelist::codec::hlink::HardLinkDecoder;
use crate::filelist::codec::options::FileListOptions;
use crate::filelist::codec::state::{DeltaState, DeltaView};
use crate::filelist::codec::{ReadEntryResult, RecordView};
use crate::filelist::entry::{entry_views, EntryView, FileEntry};
use crate::filelist::idlist::{
    id_lists_at, id_lists_bytes, id_lists_read_back, recv_id_list, send_id_list,
};
use crate::filelist::incremental::{
    sub_list_at, sub_list_bytes, IncrementalReceiver, IncrementalSender, NDX_FLIST_EOF,
    NDX_FLIST_OFFSET,
};
use crate::filelist::list::{
    entries_bytes, entry_has_index, got_len, got_list, list_at, list_fits, list_goes_past,
    list_read_back, next_record, read_list, read_record, read_state, record_goes_on, write_entries,
    MAX_INDEX,
};
use crate::filelist::sort::{
    canonical, canonical_sort, is_sorted, numbered_order, numbered_views, sort_numbered, sorted,
    sorted_numbered, sorting_keeps_indices, sorting_orders, unnumbered,
};
use crate::options::{OptionsView, TransferConfig};
use crate::order::{is_ordered, ordered_is_sorted};
use crate::protocol::handshake::NegotiatedProtocol;
use crate::protocol::varint::{
    int_at, int_bytes, int_read_back, ndx_at, ndx_bytes, ndx_goes_on, ndx_read_back, ndx_read_next,
    read_int, write_int, NdxState,
};
use crate::protocol::wire::{holds_at, holds_split, WireReader};
use crate::text::{from_chars, push_text, signed_decimal, signed_decimal_string};

verus! {

/// Whether the file list of a session is exchanged directory by directory.
pub open spec fn by_directory(protocol: NegotiatedProtocol, o: OptionsView) -> bool {
    protocol.incremental() && o.archive.recursive
}

fn goes_by_directory(protocol: &NegotiatedProtocol, opts: &TransferConfig) -> (r: bool)
    ensures
        r == by_directory(*protocol, opts@),
{
    protocol.supports_incremental_flist() && opts.recursive()
}

// ---------------------------------------------------------------------------
// Sending
// ---------------------------------------------------------------------------

/// The bytes of a list that is sent at once.
pub open spec fn batch_bytes(es: Seq<EntryView>, o: FileListOptions) -> Seq<u8> {
    entries_bytes(es, o, 0) + end_bytes(0, o) + (if o.trailing_io_error() {
        int_bytes(0)
    } else {
        Seq::empty()
    })
}

/// The bytes of a list that is sent by directory. All entries stand in the
/// list of the root.
pub open spec fn incremental_bytes(es: Seq<EntryView>, o: FileListOptions) -> Seq<u8> {
    sub_list_bytes(es, o, 1) + ndx_bytes(NDX_FLIST_EOF, NdxState::initial(), o.protocol_version)
}

/// The bytes of a file list in a session.
pub open spec fn file_list_bytes(
    es: Seq<EntryView>,
    protocol: NegotiatedProtocol,
    o: OptionsView,
) -> Seq<u8> {
    let f = FileListOptions::negotiated(protocol, o);
    if by_directory(protocol, o) {
        incremental_bytes(es, f)
    } else {
        batch_bytes(es, f) + (if f.numeric_ids {
            Seq::empty()
        } else {
            id_lists_bytes(es, f)
        })
    }
}

/// Writes a file list.
pub fn send_file_list(
    w: &mut Vec<u8>,
    entries: &[FileEntry],
    protocol: &NegotiatedProtocol,
    opts: &TransferConfig,
)
    requires
        entries.len() < i32::MAX,
    ensures
        final(w)@ == old(w)@ + file_list_bytes(entry_views(entries@), *protocol, opts@),
{
    let flist_opts = FileListOptions::from_protocol(protocol, opts);
    if goes_by_directory(protocol, opts) {
        send_file_list_incremental(w, entries, &flist_opts);
    } else {
        send_file_list_batch(w, entries, &flist_opts);
        if !flist_opts.numeric_ids {
            send_id_list(w, entries, &flist_opts);
        }
    }
    assert(w@ =~= old(w)@ + file_list_bytes(entry_views(entries@), *protocol, opts@));
}

/// Writes a file list at once.
fn send_file_list_batch(w: &mut Vec<u8>, entries: &[FileEntry], opts: &FileListOptions)
    requires
        entries.len() <= i32::MAX,
    ensures
        final(w)@ == old(w)@ + batch_bytes(entry_views(entries@), *opts),
{
    write_entries(w, entries, opts, 0);
    write_end_of_flist(w, 0, opts);
    if opts.protocol_version < 30 {
        write_int(w, 0);
    }
    assert(w@ =~= old(w)@ + batch_bytes(entry_views(entries@), *opts));
}

/// Writes a file list as the list of the root, and that there are no others.
fn send_file_list_incremental(w: &mut Vec<u8>, entries: &[FileEntry], opts: &FileListOptions)
    requires
        entries.len() < i32::MAX,
    ensures
        final(w)@ == old(w)@ + incremental_bytes(entry_views(entries@), *opts),
{
    let mut sender = IncrementalSender::default();
    write_entries(w, entries, opts, 1);
    write_end_of_flist(w, 0, opts);
    sender.write_flist_eof(w, opts.protocol_version);
    assert(w@ =~= old(w)@ + incremental_bytes(entry_views(entries@), *opts));
}

// ---------------------------------------------------------------------------
// Receiving
// ---------------------------------------------------------------------------

/// A received file list with the index of each entry.
#[derive(Debug)]
pub struct ReceivedFileList {
    /// The entries, in canonical order.
    pub entries: Vec<FileEntry>,
    /// The index of each entry. Between the lists of directories an index is
    /// left out, and an entry has the index that its place in its own list
    /// gives it.
    pub entry_ndx: Vec<i32>,
    /// The index of the first entry of the first list.
    pub ndx_start: i32,
    /// How many lists were received.
    pub num_flists: usize,
}

/// The view of a [`ReceivedFileList`].
#[verifier::ext_equal]
pub struct ReceivedView {
    pub entries: Seq<EntryView>,
    pub entry_ndx: Seq<i32>,
    pub ndx_start: i32,
    pub num_flists: nat,
}

impl View for ReceivedFileList {
    type V = ReceivedView;

    open spec fn view(&self) -> ReceivedView {
        ReceivedView {
            entries: entry_views(self.entries@),
            entry_ndx: self.entry_ndx@,
            ndx_start: self.ndx_start,
            num_flists: self.num_flists as nat,
        }
    }
}

/// Indices from a start on.
pub open spec fn indices_from(start: int, n: nat) -> Seq<i32> {
    Seq::new(n, |i: int| (start + i) as i32)
}

/// The entries of a list in canonical order, numbered from a start on.
pub open spec fn numbered(es: Seq<EntryView>, start: int) -> Seq<(i32, EntryView)> {
    Seq::new(es.len(), |i: int| ((start + i) as i32, sorted(es)[i]))
}

/// The indices of entries.
pub open spec fn indices_of(s: Seq<(i32, EntryView)>) -> Seq<i32> {
    s.map_values(|e: (i32, EntryView)| e.0)
}

/// What is received of lists: the entries of all of them in canonical order,
/// each with its index.
pub open spec fn received(all: Seq<(i32, EntryView)>, start: i32, lists: nat) -> ReceivedView {
    ReceivedView {
        entries: unnumbered(sorted_numbered(all)),
        entry_ndx: indices_of(sorted_numbered(all)),
        ndx_start: start,
        num_flists: lists,
    }
}

/// The entries of lists come out in canonical order, and every entry keeps the
/// index that it was given in its own list.
pub proof fn received_in_order(all: Seq<(i32, EntryView)>, start: i32, lists: nat)
    ensures
        ({
            let v = received(all, start, lists);
            &&& v.entries == sorted(unnumbered(all))
            &&& is_sorted(v.entries)
            &&& v.entries.len() == all.len()
            &&& v.entry_ndx.len() == all.len()
            &&& Seq::new(all.len(), |i: int| (v.entry_ndx[i], v.entries[i])).to_multiset()
                == all.to_multiset()
        }),
{
    let v = received(all, start, lists);
    sorting_keeps_indices(all);
    sorting_orders(unnumbered(all));
    assert(Seq::new(all.len(), |i: int| (v.entry_ndx[i], v.entries[i])) =~= sorted_numbered(all));
}

/// A single list is numbered in the order in which it comes out.
pub proof fn one_list_received(es: Seq<EntryView>, start: int)
    ensures
        received(numbered(es, start), start as i32, 1) == (ReceivedView {
            entries: sorted(es),
            entry_ndx: indices_from(start, es.len()),
            ndx_start: start as i32,
            num_flists: 1,
        }),
{
    let s = numbered(es, start);
    sorting_orders(es);
    assert(is_ordered(s, numbered_order())) by {
        assert forall|i: int, j: int| 0 <= i <= j < s.len() implies numbered_order()(
            #[trigger] s[i],
            #[trigger] s[j],
        ) by {
            assert(canonical()(sorted(es)[i], sorted(es)[j]));
        }
    }
    ordered_is_sorted(s, numbered_order());
    assert(unnumbered(s) =~= sorted(es));
    assert(indices_of(s) =~= indices_from(start, es.len()));
}

/// The entries of a list that was sent at once, and the position behind it.
pub open spec fn batch_at(s: Seq<u8>, p: int, o: FileListOptions) -> Result<
    (Seq<EntryView>, int),
    ProtocolErrorView,
> {
    match list_at(s, p, DeltaView::initial(), o, Seq::empty()) {
        Err(e) => Err(e),
        Ok(l) => if o.trailing_io_error() {
            match int_at(s, l.end) {
                Err(e) => Err(e),
                Ok((_, q)) => Ok((l.entries, q)),
            }
        } else {
            Ok((l.entries, l.end))
        },
    }
}

/// The error for an index that is no marker of a list.
pub open spec fn unexpected_ndx(ndx: i32) -> ProtocolErrorView {
    ProtocolErrorView::Handshake {
        message: "unexpected NDX value "@ + signed_decimal(ndx as int)
            + " during file list reception"@,
    }
}

/// The entries of the lists behind a position and how many lists there are,
/// after some, up to the marker that says that there are no more.
pub open spec fn lists_at(
    s: Seq<u8>,
    p: int,
    nst: NdxState,
    next: int,
    st: DeltaView,
    o: FileListOptions,
    got: Seq<(i32, EntryView)>,
    lists: nat,
) -> Result<(Seq<(i32, EntryView)>, nat, int), ProtocolErrorView>
    decreases
            (if p < s.len() {
                s.len() - p
            } else {
                0
            }),
{
    if p >= s.len() {
        Err(crate::error::eof_error())
    } else {
        match ndx_at(s, p, nst, o.protocol_version) {
            Err(e) => Err(e),
            Ok((ndx, q)) => if ndx == NDX_FLIST_EOF {
                Ok((got, lists, q))
            } else if ndx <= NDX_FLIST_OFFSET {
                let nst2 = ndx_read_next(s[p], ndx, nst, o.protocol_version);
                match sub_list_at(s, q, st, o, next as i32) {
                    Err(e) => Err(e),
                    Ok(l) => {
                        proof {
                            ndx_goes_on(s, p, nst, o.protocol_version);
                            list_goes_past(
                                s,
                                q,
                                DeltaView { ndx_start: next as i32, ..st },
                                o,
                                Seq::empty(),
                            );
                        }
                        lists_at(
                            s,
                            l.end,
                            nst2,
                            next + l.entries.len() + 1,
                            l.state,
                            o,
                            got + numbered(l.entries, next),
                            lists + 1,
                        )
                    },
                }
            } else {
                Err(unexpected_ndx(ndx))
            },
        }
    }
}

/// What is received of a list that is sent by directory.
pub open spec fn incremental_at(s: Seq<u8>, p: int, o: FileListOptions) -> Result<
    (ReceivedView, int),
    ProtocolErrorView,
> {
    match sub_list_at(s, p, DeltaView::initial(), o, 1) {
        Err(e) => Err(e),
        Ok(l) => match lists_at(
            s,
            l.end,
            NdxState::initial(),
            l.entries.len() + 2int,
            l.state,
            o,
            numbered(l.entries, 1),
            1,
        ) {
            Err(e) => Err(e),
            Ok((all, lists, q)) => Ok((received(all, 1, lists), q)),
        },
    }
}

/// What is received of a file list in a session.
pub open spec fn file_list_at(
    s: Seq<u8>,
    p: int,
    protocol: NegotiatedProtocol,
    opts: OptionsView,
) -> Result<(ReceivedView, int), ProtocolErrorView> {
    let o = FileListOptions::negotiated(protocol, opts);
    if by_directory(protocol, opts) {
        incremental_at(s, p, o)
    } else {
        match batch_at(s, p, o) {
            Err(e) => Err(e),
            Ok((es, q)) => {
                let end = if o.numeric_ids {
                    Ok(q)
                } else {
                    id_lists_at(s, q, o)
                };
                match end {
                    Err(e) => Err(e),
                    Ok(q2) => Ok((received(numbered(es, 0), 0, 1), q2)),
                }
            },
        }
    }
}

/// Reads a file list. The entries come out in canonical order, each with its
/// index.
pub fn recv_file_list(
    r: &mut WireReader,
    protocol: &NegotiatedProtocol,
    opts: &TransferConfig,
) -> (res: Result<ReceivedFileList, ProtocolError>)
    requires
        old(r).wf(),
    ensures
        final(r).wf(),
        final(r).buf@ == old(r).buf@,
        match file_list_at(old(r).buf@, old(r).pos as int, *protocol, opts@) {
            Ok((v, q)) => res is Ok && res->Ok_0@ == v && final(r).pos == q,
            Err(e) => res is Err && res->Err_0@ == e,
        },
        res is Ok ==> is_sorted(res->Ok_0@.entries) && res->Ok_0.entry_ndx.len()
            == res->Ok_0.entries.len(),
{
    let flist_opts = FileListOptions::from_protocol(protocol, opts);
    if goes_by_directory(protocol, opts) {
        return recv_file_list_incremental(r, &flist_opts);
    }
    let entries = match recv_file_list_batch(r, &flist_opts) {
        Err(e) => {
            return Err(e);
        },
        Ok(v) => v,
    };
    let ghost es = entry_views(entries@);
    if !flist_opts.numeric_ids {
        match recv_id_list(r, &flist_opts) {
            Err(e) => {
                return Err(e);
            },
            Ok(_) => {},
        }
    }
    let mut all: Vec<(i32, FileEntry)> = Vec::new();
    sort_and_assign(entries, 0, &mut all);
    assert(numbered_views(all@) =~= numbered(es, 0));
    proof {
        received_in_order(numbered(es, 0), 0, 1);
    }
    Ok(in_canonical_order(all, 0, 1))
}

/// Adds a list: its entries in canonical order, numbered from a start on.
fn sort_and_assign(entries: Vec<FileEntry>, ndx_start: i32, all: &mut Vec<(i32, FileEntry)>)
    requires
        0 <= ndx_start,
        ndx_start + entries.len() <= i32::MAX,
    ensures
        numbered_views(final(all)@) == numbered_views(old(all)@) + numbered(
            entry_views(entries@),
            ndx_start as int,
        ),
{
    let ghost es = entry_views(entries@);
    let ghost before = numbered_views(all@);
    let ghost more = numbered(es, ndx_start as int);
    let mut list = entries;
    canonical_sort(&mut list);
    proof {
        sorting_orders(es);
    }
    let ghost in_turn = list@;
    let mut ndx: i32 = ndx_start;
    assert(before + more.take(0) =~= before);
    for e in it: list.into_iter()
        invariant
            it.seq() == in_turn,
            entry_views(in_turn) == sorted(es),
            in_turn.len() == es.len(),
            more == numbered(es, ndx_start as int),
            0 <= ndx_start,
            ndx_start + es.len() <= i32::MAX,
            ndx == ndx_start + it.index(),
            numbered_views(all@) == before + more.take(it.index() as int),
    {
        let ghost had = numbered_views(all@);
        let ghost i = it.index() as int;
        let ghost ev = e@;
        proof {
            assert(entry_views(in_turn)[i] == ev);
            assert(more.take(i + 1) =~= more.take(i).push(more[i]));
        }
        all.push((ndx, e));
        assert(numbered_views(all@) =~= had.push((ndx, ev)));
        assert(had.push((ndx, ev)) =~= before + more.take(i + 1));
        ndx = ndx + 1;
    }
    assert(more.take(more.len() as int) =~= more);
}

/// Puts the entries of lists in canonical order, each with its index.
fn in_canonical_order(all: Vec<(i32, FileEntry)>, ndx_start: i32, num_flists: usize) -> (r:
    ReceivedFileList)
    ensures
        r@ == received(numbered_views(all@), ndx_start, num_flists as nat),
{
    let ghost want = sorted_numbered(numbered_views(all@));
    let list = sort_numbered(all);
    let ghost in_turn = list@;
    let mut entries: Vec<FileEntry> = Vec::new();
    let mut entry_ndx: Vec<i32> = Vec::new();
    for e in it: list.into_iter()
        invariant
            it.seq() == in_turn,
            numbered_views(in_turn) == want,
            entry_views(entries@) == unnumbered(want).take(it.index() as int),
            entry_ndx@ == indices_of(want).take(it.index() as int),
    {
        let ghost had = entry_views(entries@);
        let ghost had_ndx = entry_ndx@;
        let ghost i = it.index() as int;
        let (ndx, entry) = e;
        let ghost ev = entry@;
        proof {
            assert(numbered_views(in_turn)[i] == (ndx, ev));
            assert(unnumbered(want).take(i + 1) =~= unnumbered(want).take(i).push(ev));
            assert(indices_of(want).take(i + 1) =~= indices_of(want).take(i).push(ndx));
        }
        entries.push(entry);
        entry_ndx.push(ndx);
        assert(entry_views(entries@) =~= had.push(ev));
        assert(entry_ndx@ =~= had_ndx.push(ndx));
    }
    assert(unnumbered(want).take(want.len() as int) =~= unnumbered(want));
    assert(indices_of(want).take(want.len() as int) =~= indices_of(want));
    ReceivedFileList { entries, entry_ndx, ndx_start, num_flists }
}

/// Reads a list that was sent at once.
fn recv_file_list_batch(r: &mut WireReader, opts: &FileListOptions) -> (res: Result<
    Vec<FileEntry>,
    ProtocolError,
>)
    requires
        old(r).wf(),
    ensures
        final(r).wf(),
        final(r).buf@ == old(r).buf@,
        match batch_at(old(r).buf@, old(r).pos as int, *opts) {
            Ok((es, q)) => res is Ok && entry_views(res->Ok_0@) == es && final(r).pos == q
                && es.len() <= i32::MAX,
            Err(e) => res is Err && res->Err_0@ == e,
        },
{
    let mut state = DeltaState::default();
    match read_list(r, &mut state, opts) {
        Err(e) => Err(e),
        Ok((entries, _)) => {
            if opts.protocol_version < 30 {
                match read_int(r) {
                    Err(e) => {
                        return Err(e);
                    },
                    Ok(_) => {},
                }
            }
            Ok(entries)
        },
    }
}

/// Makes the error for an index that is no marker of a list.
fn make_unexpected_ndx(ndx: i32) -> (r: ProtocolError)
    ensures
        r@ == unexpected_ndx(ndx),
{
    let mut out: Vec<char> = Vec::new();
    push_text(&mut out, "unexpected NDX value ");
    push_text(&mut out, &signed_decimal_string(ndx as i64));
    push_text(&mut out, " during file list reception");
    assert(out@ =~= "unexpected NDX value "@ + signed_decimal(ndx as int)
        + " during file list reception"@);
    ProtocolError::Handshake { message: from_chars(&out) }
}

/// Reads a list that was sent by directory.
fn recv_file_list_incremental(r: &mut WireReader, opts: &FileListOptions) -> (res: Result<
    ReceivedFileList,
    ProtocolError,
>)
    requires
        old(r).wf(),
    ensures
        final(r).wf(),
        final(r).buf@ == old(r).buf@,
        match incremental_at(old(r).buf@, old(r).pos as int, *opts) {
            Ok((v, q)) => res is Ok && res->Ok_0@ == v && final(r).pos == q,
            Err(e) => res is Err && res->Err_0@ == e,
        },
        res is Ok ==> is_sorted(res->Ok_0@.entries) && res->Ok_0.entry_ndx.len()
            == res->Ok_0.entries.len(),
{
    let ghost s = r.buf@;
    let ghost want = incremental_at(s, r.pos as int, *opts);
    let mut receiver = IncrementalReceiver::default();
    let mut state = DeltaState::default();
    let mut all: Vec<(i32, FileEntry)> = Vec::new();
    let mut num_flists: usize = 1;
    proof {
        list_goes_past(
            s,
            r.pos as int,
            DeltaView { ndx_start: 1, ..DeltaView::initial() },
            *opts,
            Seq::empty(),
        );
    }
    match receiver.recv_sub_flist_with_state(r, 0, opts, &mut state) {
        Err(e) => {
            return Err(e);
        },
        Ok(sub) => {
            let ghost es = entry_views(sub.entries@);
            sort_and_assign(sub.entries, sub.ndx_start, &mut all);
            assert(numbered_views(all@) =~= numbered(es, 1));
        },
    }
    loop
        invariant
            r.wf(),
            r.buf@ == s,
            s == old(r).buf@,
            1 <= receiver.next_ndx,
            num_flists <= r.pos,
            want == incremental_at(s, old(r).pos as int, *opts),
            want == (match lists_at(
                s,
                r.pos as int,
                receiver.ndx_state,
                receiver.next_ndx as int,
                state@,
                *opts,
                numbered_views(all@),
                num_flists as nat,
            ) {
                Err(e) => Err(e),
                Ok((got, lists, q)) => Ok((received(got, 1, lists), q)),
            }),
        decreases r.buf.len() - r.pos,
    {
        let ghost nst = receiver.ndx_state;
        proof {
            ndx_goes_on(s, r.pos as int, nst, opts.protocol_version);
        }
        let ndx: i32 = match receiver.read_ndx_marker(r, opts.protocol_version) {
            Err(e) => {
                return Err(e);
            },
            Ok(v) => v,
        };
        if ndx == NDX_FLIST_EOF {
            proof {
                received_in_order(numbered_views(all@), 1, num_flists as nat);
            }
            return Ok(in_canonical_order(all, 1, num_flists));
        }
        if ndx > NDX_FLIST_OFFSET {
            return Err(make_unexpected_ndx(ndx));
        }
        let dir_ndx: i32 = NDX_FLIST_OFFSET - ndx;
        let ghost st = state@;
        let ghost start = receiver.next_ndx;
        proof {
            list_goes_past(
                s,
                r.pos as int,
                DeltaView { ndx_start: start, ..st },
                *opts,
                Seq::empty(),
            );
        }
        match receiver.recv_sub_flist_with_state(r, dir_ndx, opts, &mut state) {
            Err(e) => {
                return Err(e);
            },
            Ok(sub) => {
                sort_and_assign(sub.entries, sub.ndx_start, &mut all);
                num_flists = num_flists + 1;
            },
        }
    }
}

// ---------------------------------------------------------------------------
// Streaming
// ---------------------------------------------------------------------------

/// Entries that are handed on one by one, and how reading them ended.
#[verifier::ext_equal]
pub struct StreamView {
    pub entries: Seq<EntryView>,
    pub end: Result<int, ProtocolErrorView>,
}

/// The entries of a list that was sent at once, behind some of them.
pub open spec fn batch_stream(
    s: Seq<u8>,
    p: int,
    st: DeltaView,
    o: FileListOptions,
    prev: Seq<EntryView>,
) -> StreamView
    decreases
            (if p < s.len() {
                s.len() - p
            } else {
                0
            }),
{
    if p >= s.len() {
        StreamView { entries: prev, end: Err(crate::error::eof_error()) }
    } else {
        proof {
            record_goes_on(s, p, st, o, prev);
        }
        match next_record(s, p, st, o, prev) {
            Err(e) => StreamView { entries: prev, end: Err(e) },
            Ok((RecordView::EndOfList { .. }, q)) => StreamView {
                entries: prev,
                end: if o.trailing_io_error() {
                    match int_at(s, q) {
                        Err(e) => Err(e),
                        Ok((_, q2)) => Ok(q2),
                    }
                } else {
                    Ok(q)
                },
            },
            Ok((RecordView::Entry(e, _), q)) => batch_stream(s, q, st.after(e), o, prev.push(e)),
        }
    }
}

/// The entries of the lists of directories behind a position, after some.
/// Each list is decoded on its own.
pub open spec fn lists_stream(
    s: Seq<u8>,
    p: int,
    nst: NdxState,
    next: int,
    o: FileListOptions,
    prev: Seq<EntryView>,
) -> StreamView
    decreases
            (if p < s.len() {
                s.len() - p
            } else {
                0
            }),
{
    if p >= s.len() {
        StreamView { entries: prev, end: Err(crate::error::eof_error()) }
    } else {
        match ndx_at(s, p, nst, o.protocol_version) {
            Err(e) => StreamView { entries: prev, end: Err(e) },
            Ok((ndx, q)) => if ndx == NDX_FLIST_EOF {
                StreamView { entries: prev, end: Ok(q) }
            } else if ndx <= NDX_FLIST_OFFSET {
                let nst2 = ndx_read_next(s[p], ndx, nst, o.protocol_version);
                match sub_list_at(s, q, DeltaView::initial(), o, next as i32) {
                    Err(e) => StreamView { entries: prev, end: Err(e) },
                    Ok(l) => {
                        proof {
                            ndx_goes_on(s, p, nst, o.protocol_version);
                            list_goes_past(
                                s,
                                q,
                                DeltaView { ndx_start: next as i32, ..DeltaView::initial() },
                                o,
                                Seq::empty(),
                            );
                        }
                        lists_stream(
                            s,
                            l.end,
                            nst2,
                            next + l.entries.len() + 1,
                            o,
                            prev + l.entries,
                        )
                    },
                }
            } else {
                StreamView { entries: prev, end: Err(unexpected_ndx(ndx)) }
            },
        }
    }
}

/// The entries that are handed on of a file list in a session.
pub open spec fn file_list_stream(
    s: Seq<u8>,
    p: int,
    protocol: NegotiatedProtocol,
    opts: OptionsView,
) -> StreamView {
    let o = FileListOptions::negotiated(protocol, opts);
    if by_directory(protocol, opts) {
        match sub_list_at(s, p, DeltaView::initial(), o, 1) {
            Err(e) => StreamView { entries: Seq::empty(), end: Err(e) },
            Ok(l) => lists_stream(
                s,
                l.end,
                NdxState::initial(),
                l.entries.len() + 2int,
                o,
                l.entries,
            ),
        }
    } else {
        batch_stream(s, p, DeltaView::initial(), o, Seq::empty())
    }
}

/// Whether a stream was handed on as it should be.
pub open spec fn streamed(
    before: WireReader,
    after: WireReader,
    want: StreamView,
    entries: Seq<FileEntry>,
    res: Result<(), ProtocolError>,
) -> bool {
    &&& after.wf()
    &&& after.buf@ == before.buf@
    &&& entry_views(entries) == want.entries
    &&& match want.end {
        Ok(q) => res is Ok && after.pos == q,
        Err(e) => res is Err && res->Err_0@ == e,
    }
}

/// Reads a file list and hands its entries on in the order of the wire. Where
/// reading fails the entries before stand.
pub fn recv_file_list_streaming(
    r: &mut WireReader,
    protocol: &NegotiatedProtocol,
    opts: &TransferConfig,
) -> (res: (Vec<FileEntry>, Result<(), ProtocolError>))
    requires
        old(r).wf(),
    ensures
        streamed(
            *old(r),
            *final(r),
            file_list_stream(old(r).buf@, old(r).pos as int, *protocol, opts@),
            res.0@,
            res.1,
        ),
{
    let flist_opts = FileListOptions::from_protocol(protocol, opts);
    if goes_by_directory(protocol, opts) {
        recv_file_list_incremental_streaming(r, &flist_opts)
    } else {
        recv_file_list_batch_streaming(r, &flist_opts)
    }
}

fn recv_file_list_batch_streaming(r: &mut WireReader, opts: &FileListOptions) -> (res: (
    Vec<FileEntry>,
    Result<(), ProtocolError>,
))
    requires
        old(r).wf(),
    ensures
        streamed(
            *old(r),
            *final(r),
            batch_stream(
                old(r).buf@,
                old(r).pos as int,
                DeltaView::initial(),
                *opts,
                Seq::empty(),
            ),
            res.0@,
            res.1,
        ),
{
    let ghost s = r.buf@;
    let ghost want = batch_stream(s, r.pos as int, DeltaView::initial(), *opts, Seq::empty());
    let mut state = DeltaState::default();
    let mut links = HardLinkDecoder::new();
    let mut entries: Vec<FileEntry> = Vec::new();
    assert(entry_views(entries@) =~= Seq::empty());
    loop
        invariant
            r.wf(),
            r.buf@ == s,
            s == old(r).buf@,
            0 <= state@.ndx_start,
            entries.len() == 0 || state@.ndx_start + entries.len() - 1 <= MAX_INDEX,
            want == batch_stream(
                s,
                old(r).pos as int,
                DeltaView::initial(),
                *opts,
                Seq::empty(),
            ),
            want == batch_stream(s, r.pos as int, state@, *opts, entry_views(entries@)),
        decreases r.buf.len() - r.pos,
    {
        let ghost prev = entry_views(entries@);
        proof {
            record_goes_on(s, r.pos as int, state@, *opts, prev);
            entry_has_index(s, r.pos as int, state@, *opts, prev);
        }
        match read_record(r, &mut state, opts, &mut links, entries.as_slice()) {
            Err(e) => {
                return (entries, Err(e));
            },
            Ok(ReadEntryResult::EndOfList { .. }) => {
                if opts.protocol_version < 30 {
                    match read_int(r) {
                        Err(e) => {
                            return (entries, Err(e));
                        },
                        Ok(_) => {},
                    }
                }
                return (entries, Ok(()));
            },
            Ok(ReadEntryResult::Entry(e)) => {
                let ghost ev = e@;
                entries.push(e);
                assert(entry_views(entries@) =~= prev.push(ev));
            },
        }
    }
}

fn recv_file_list_incremental_streaming(r: &mut WireReader, opts: &FileListOptions) -> (res: (
    Vec<FileEntry>,
    Result<(), ProtocolError>,
))
    requires
        old(r).wf(),
    ensures
        streamed(
            *old(r),
            *final(r),
            (match sub_list_at(
                old(r).buf@,
                old(r).pos as int,
                DeltaView::initial(),
                *opts,
                1,
            ) {
                Err(e) => StreamView { entries: Seq::empty(), end: Err(e) },
                Ok(l) => lists_stream(
                    old(r).buf@,
                    l.end,
                    NdxState::initial(),
                    l.entries.len() + 2int,
                    *opts,
                    l.entries,
                ),
            }),
            res.0@,
            res.1,
        ),
{
    let ghost s = r.buf@;
    let ghost first = sub_list_at(s, r.pos as int, DeltaView::initial(), *opts, 1);
    let mut receiver = IncrementalReceiver::default();
    proof {
        list_goes_past(
            s,
            r.pos as int,
            DeltaView { ndx_start: 1, ..DeltaView::initial() },
            *opts,
            Seq::empty(),
        );
    }
    let mut entries: Vec<FileEntry> = match receiver.recv_sub_flist(r, 0, opts) {
        Err(e) => {
            let none: Vec<FileEntry> = Vec::new();
            assert(entry_views(none@) =~= Seq::empty());
            return (none, Err(e));
        },
        Ok(sub) => sub.entries,
    };
    let ghost want = lists_stream(
        s,
        first->Ok_0.end,
        NdxState::initial(),
        first->Ok_0.entries.len() + 2int,
        *opts,
        first->Ok_0.entries,
    );
    loop
        invariant
            r.wf(),
            r.buf@ == s,
            s == old(r).buf@,
            1 <= receiver.next_ndx,
            first == sub_list_at(s, old(r).pos as int, DeltaView::initial(), *opts, 1),
            first is Ok,
            want == lists_stream(
                s,
                first->Ok_0.end,
                NdxState::initial(),
                first->Ok_0.entries.len() + 2int,
                *opts,
                first->Ok_0.entries,
            ),
            want == lists_stream(
                s,
                r.pos as int,
                receiver.ndx_state,
                receiver.next_ndx as int,
                *opts,
                entry_views(entries@),
            ),
        decreases r.buf.len() - r.pos,
    {
        proof {
            ndx_goes_on(s, r.pos as int, receiver.ndx_state, opts.protocol_version);
        }
        let ndx: i32 = match receiver.read_ndx_marker(r, opts.protocol_version) {
            Err(e) => {
                return (entries, Err(e));
            },
            Ok(v) => v,
        };
        if ndx == NDX_FLIST_EOF {
            return (entries, Ok(()));
        }
        if ndx > NDX_FLIST_OFFSET {
            return (entries, Err(make_unexpected_ndx(ndx)));
        }
        let dir_ndx: i32 = NDX_FLIST_OFFSET - ndx;
        proof {
            list_goes_past(
                s,
                r.pos as int,
                DeltaView { ndx_start: receiver.next_ndx, ..DeltaView::initial() },
                *opts,
                Seq::empty(),
            );
        }
        match receiver.recv_sub_flist(r, dir_ndx, opts) {
            Err(e) => {
                return (entries, Err(e));
            },
            Ok(sub) => {
                let ghost had = entries@;
                let mut more = sub.entries;
                let ghost added = more@;
                entries.append(&mut more);
                assert(entries@ =~= had + added);
                assert(entry_views(entries@) =~= entry_views(had) + entry_views(added));
            },
        }
    }
}

// ---------------------------------------------------------------------------
// What is sent is received
// ---------------------------------------------------------------------------

/// A file list that was sent is received: the entries as the wire format
/// carries them, in canonical order, with consecutive indices from the index
/// that both sides start from, and nothing behind the list is read.
#[verifier::spinoff_prover]
#[verifier::rlimit(40)]
pub proof fn file_list_read_back(
    s: Seq<u8>,
    p: int,
    es: Seq<EntryView>,
    protocol: NegotiatedProtocol,
    opts: OptionsView,
)
    requires
        0 <= p,
        es.len() + 1 < i32::MAX,
        list_fits(
            es,
            FileListOptions::negotiated(protocol, opts),
            if by_directory(protocol, opts) {
                1
            } else {
                0
            },
        ),
        holds_at(s, p, file_list_bytes(es, protocol, opts)),
    ensures
        ({
            let o = FileListOptions::negotiated(protocol, opts);
            let start: int = if by_directory(protocol, opts) {
                1
            } else {
                0
            };
            file_list_at(s, p, protocol, opts) == Ok::<(ReceivedView, int), ProtocolErrorView>(
                (
                    ReceivedView {
                        entries: sorted(got_list(es, o, start)),
                        entry_ndx: indices_from(start, es.len()),
                        ndx_start: start as i32,
                        num_flists: 1,
                    },
                    p + file_list_bytes(es, protocol, opts).len(),
                ),
            )
        }),
{
    let o = FileListOptions::negotiated(protocol, opts);
    let start: int = if by_directory(protocol, opts) {
        1
    } else {
        0
    };
    let got = got_list(es, o, start);
    let a = entries_bytes(es, o, start) + end_bytes(0, o);
    assert(read_state(Seq::empty(), start) == (DeltaView {
        ndx_start: start as i32,
        ..DeltaView::initial()
    }));
    got_len(es, o, start);
    one_list_received(got, start);
    if by_directory(protocol, opts) {
        let m = ndx_bytes(NDX_FLIST_EOF, NdxState::initial(), o.protocol_version);
        holds_split(s, p, a, m);
        list_read_back(s, p, es, o, start);
        ndx_read_back(s, p + a.len(), NDX_FLIST_EOF, NdxState::initial(), o.protocol_version);
        ndx_goes_on(s, p + a.len(), NdxState::initial(), o.protocol_version);
    } else {
        let t = if o.trailing_io_error() {
            int_bytes(0)
        } else {
            Seq::empty()
        };
        let i = if o.numeric_ids {
            Seq::empty()
        } else {
            id_lists_bytes(es, o)
        };
        holds_split(s, p, a + t, i);
        holds_split(s, p, a, t);
        list_read_back(s, p, es, o, start);
        if o.trailing_io_error() {
            int_read_back(s, p + a.len(), 0);
        }
        if !o.numeric_ids {
            id_lists_read_back(s, p + a.len() + t.len(), es, o);
        }
    }
}

} // verus!

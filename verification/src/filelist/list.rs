//! Runs of file list records.

use vstd::prelude::*;

use crate::error::{ProtocolError, ProtocolErrorView};
use crate::filelist::codec::fields::{
    checksum_at, end_bytes, end_read_back, flags_at, link_at, mode_at, mtime_at, name_at, nsec_at,
    owner_at, rdev_at, sends_checksum, sends_link, sends_rdev, wire_flags, DecodedFlags,
    MAX_NAME_LEN,
};
use crate::filelist::codec::hlink::{
    hlink_at, info_of, linked_entry, resolved_action, resolved_seen, HardLinkAction, HardLinkDecoder,
    HardLinkEncoder,
};
use crate::filelist::codec::options::FileListOptions;
use crate::filelist::codec::state::{DeltaState, DeltaView};
use crate::filelist::codec::{
    body_at, decode_entry, duplicate_read_back, encode_entry, entry_bytes, entry_flags,
    entry_read_back, in_step, received, record_at, sendable, special_at, tail_at, ReadEntryResult,
    RecordView,
};
use crate::filelist::entry::{
    entry_views, link_identity, EntryView, FileEntry,
};
use crate::filelist::xmit::{
    has_flag, XMIT_GROUP_NAME_FOLLOWS, XMIT_SAME_GID, XMIT_SAME_UID, XMIT_USER_NAME_FOLLOWS,
};
use crate::protocol::varint::varlong30_at;
use crate::protocol::wire::{holds_at, holds_split, WireReader};

verus! {

// ---------------------------------------------------------------------------
// Sending
// ---------------------------------------------------------------------------

/// What the encoder remembers after entries.
pub open spec fn sent_state(es: Seq<EntryView>) -> DeltaView
    decreases es.len(),
{
    if es.len() == 0 {
        DeltaView::initial()
    } else {
        sent_state(es.drop_last()).after(es.last())
    }
}

/// Which files the encoder has seen after entries.
pub open spec fn sent_links(es: Seq<EntryView>, o: FileListOptions, start: int) -> Map<u128, i32>
    decreases es.len(),
{
    if es.len() == 0 {
        Map::empty()
    } else {
        resolved_seen(
            o,
            link_identity(es.last()),
            sent_links(es.drop_last(), o, start),
            (start + es.len() - 1) as i32,
        )
    }
}

/// What is sent in place of an entry's own data, after the entries before it.
pub open spec fn sent_action(
    es: Seq<EntryView>,
    e: EntryView,
    o: FileListOptions,
    start: int,
) -> HardLinkAction {
    resolved_action(o, link_identity(e), sent_links(es, o, start))
}

/// The bytes of entries, the first of which has an index.
pub open spec fn entries_bytes(es: Seq<EntryView>, o: FileListOptions, start: int) -> Seq<u8>
    decreases es.len(),
{
    if es.len() == 0 {
        Seq::empty()
    } else {
        let h = es.drop_last();
        entries_bytes(h, o, start) + entry_bytes(
            es.last(),
            sent_state(h),
            o,
            sent_action(h, es.last(), o, start),
        )
    }
}

/// Writes entries, the first of which has an index.
pub fn write_entries(w: &mut Vec<u8>, entries: &[FileEntry], opts: &FileListOptions, start: i32)
    requires
        start + entries.len() <= i32::MAX,
    ensures
        final(w)@ == old(w)@ + entries_bytes(entry_views(entries@), *opts, start as int),
{
    let ghost all = entry_views(entries@);
    let ghost had = w@;
    let mut state = DeltaState::default();
    let mut links = HardLinkEncoder::new();
    let mut i: usize = 0;
    proof {
        assert(all.take(0) =~= Seq::empty());
        assert(had + Seq::<u8>::empty() =~= had);
    }
    while i < entries.len()
        invariant
            i <= entries.len(),
            start + entries.len() <= i32::MAX,
            all == entry_views(entries@),
            state@ == sent_state(all.take(i as int)),
            links@ == sent_links(all.take(i as int), *opts, start as int),
            w@ == had + entries_bytes(all.take(i as int), *opts, start as int),
        decreases entries.len() - i,
    {
        let ghost h = all.take(i as int);
        let ghost t = all.take(i + 1);
        let e = &entries[i];
        proof {
            assert(t.drop_last() =~= h);
            assert(t.last() == e@);
        }
        let info = e.hard_link_info();
        assert(info_of(info) == link_identity(e@));
        let index: i32 = (start as i64 + i as i64) as i32;
        let ghost before = w@;
        encode_entry(w, e, &mut state, opts, &mut links, info, index);
        proof {
            let b = entry_bytes(e@, sent_state(h), *opts, sent_action(h, e@, *opts, start as int));
            assert(w@ == before + b);
            assert(had + entries_bytes(h, *opts, start as int) + b =~= had + (entries_bytes(
                h,
                *opts,
                start as int,
            ) + b));
        }
        i = i + 1;
    }
    assert(all.take(i as int) =~= all);
}

// ---------------------------------------------------------------------------
// Receiving
// ---------------------------------------------------------------------------

/// Reading fields goes on from where it starts.
proof fn fields_go_on(s: Seq<u8>, p: int, flags: u32, st: DeltaView, o: FileListOptions)
    ensures
        flags_at(s, p, o) is Ok ==> p < flags_at(s, p, o)->Ok_0.1,
        ({
            let r = name_at(s, p, st.prev_name, flags, o.protocol_version);
            r is Ok ==> p <= r->Ok_0.1
        }),
        ({
            let r = mtime_at(s, p, st.prev_mtime, flags, o.protocol_version);
            r is Ok ==> p <= r->Ok_0.1
        }),
        ({
            let r = nsec_at(s, p, flags, o.protocol_version);
            r is Ok ==> p <= r->Ok_0.1
        }),
        ({
            let r = mode_at(s, p, st.prev_mode, flags);
            r is Ok ==> p <= r->Ok_0.1
        }),
        ({
            let r = varlong30_at(s, p, 3, o.protocol_version);
            r is Ok ==> p <= r->Ok_0.1
        }),
{
}

proof fn owner_goes_on(
    s: Seq<u8>,
    p: int,
    sent: bool,
    named: bool,
    id: u32,
    name: Seq<u8>,
    version: u8,
)
    ensures
        ({
            let r = owner_at(s, p, sent, named, id, name, version);
            r is Ok ==> p <= r->Ok_0.2
        }),
{
}

proof fn special_goes_on(
    s: Seq<u8>,
    p: int,
    flags: u32,
    head: EntryView,
    st: DeltaView,
    o: FileListOptions,
)
    ensures
        ({
            let r = special_at(s, p, flags, head, st, o);
            r is Ok ==> p <= r->Ok_0.1
        }),
{
    let pv = o.protocol_version;
    let sent = sends_rdev(head.mode, o);
    let a = rdev_at(s, p, sent, flags, st.prev_rdev, st.prev_rdev_major, pv);
    rdev_goes_on(s, p, sent, flags, st.prev_rdev, st.prev_rdev_major, pv);
    if a is Ok {
        let p1 = a->Ok_0.1;
        link_goes_on(s, p1, sends_link(head.mode, o), pv);
        let b = link_at(s, p1, sends_link(head.mode, o), pv);
        if b is Ok {
            checksum_goes_on(
                s,
                b->Ok_0.1,
                sends_checksum(head.mode, o),
                o.checksum_len as nat,
            );
        }
    }
}

proof fn rdev_goes_on(
    s: Seq<u8>,
    p: int,
    sent: bool,
    flags: u32,
    prev: u64,
    prev_major: u32,
    version: u8,
)
    ensures
        ({
            let r = rdev_at(s, p, sent, flags, prev, prev_major, version);
            r is Ok ==> p <= r->Ok_0.1
        }),
{
}

proof fn link_goes_on(s: Seq<u8>, p: int, sent: bool, version: u8)
    ensures
        link_at(s, p, sent, version) is Ok ==> p <= link_at(s, p, sent, version)->Ok_0.1,
{
}

proof fn checksum_goes_on(s: Seq<u8>, p: int, sent: bool, len: nat)
    ensures
        checksum_at(s, p, sent, len) is Ok ==> p <= checksum_at(s, p, sent, len)->Ok_0.1,
{
}

proof fn body_goes_on(
    s: Seq<u8>,
    p: int,
    flags: u32,
    name: Seq<u8>,
    st: DeltaView,
    o: FileListOptions,
)
    ensures
        ({
            let r = body_at(s, p, flags, name, st, o);
            r is Ok ==> p <= r->Ok_0.1
        }),
{
    let pv = o.protocol_version;
    fields_go_on(s, p, flags, st, o);
    let a = varlong30_at(s, p, 3, pv);
    if a is Ok {
        let p1 = a->Ok_0.1;
        fields_go_on(s, p1, flags, st, o);
        let b = mtime_at(s, p1, st.prev_mtime, flags, pv);
        if b is Ok {
            let p2 = b->Ok_0.1;
            fields_go_on(s, p2, flags, st, o);
            let c = nsec_at(s, p2, flags, pv);
            if c is Ok {
                let p3 = c->Ok_0.1;
                fields_go_on(s, p3, flags, st, o);
                let d = mode_at(s, p3, st.prev_mode, flags);
                if d is Ok {
                    let head = EntryView {
                        len: a->Ok_0.0,
                        mtime: b->Ok_0.0,
                        mtime_nsec: c->Ok_0.0,
                        mode: d->Ok_0.0,
                        flags,
                        ..crate::filelist::entry::empty_entry(name)
                    };
                    tail_goes_on(s, d->Ok_0.1, flags, head, st, o);
                }
            }
        }
    }
}

proof fn tail_goes_on(
    s: Seq<u8>,
    p: int,
    flags: u32,
    head: EntryView,
    st: DeltaView,
    o: FileListOptions,
)
    ensures
        ({
            let r = tail_at(s, p, flags, head, st, o);
            r is Ok ==> p <= r->Ok_0.1
        }),
{
    let pv = o.protocol_version;
    let su = o.preserve_uid && !has_flag(flags, XMIT_SAME_UID);
    let nu = has_flag(flags, XMIT_USER_NAME_FOLLOWS);
    let sg = o.preserve_gid && !has_flag(flags, XMIT_SAME_GID);
    let ng = has_flag(flags, XMIT_GROUP_NAME_FOLLOWS);
    owner_goes_on(s, p, su, nu, st.prev_uid, st.prev_user_name, pv);
    let a = owner_at(s, p, su, nu, st.prev_uid, st.prev_user_name, pv);
    if a is Ok {
        let (uid, user_name, p1) = a->Ok_0;
        owner_goes_on(s, p1, sg, ng, st.prev_gid, st.prev_group_name, pv);
        let b = owner_at(s, p1, sg, ng, st.prev_gid, st.prev_group_name, pv);
        if b is Ok {
            let (gid, group_name, p2) = b->Ok_0;
            special_goes_on(
                s,
                p2,
                flags,
                EntryView { uid, gid, user_name, group_name, ..head },
                st,
                o,
            );
        }
    }
}

/// The greatest index of an entry. Behind it come the index that stays free
/// after a list and the first index of the next list.
pub const MAX_INDEX: i32 = 0x7FFF_FFFD;

/// The error where no index is left for an entry.
pub open spec fn no_index_left(index: int) -> ProtocolErrorView {
    ProtocolErrorView::WireValueOutOfRange {
        field: "file list index"@,
        value: index as i64,
        max: MAX_INDEX as i64,
    }
}

/// Makes the error where no index is left for an entry.
pub(crate) fn make_no_index_left(index: i64) -> (r: ProtocolError)
    ensures
        r@ == no_index_left(index as int),
{
    ProtocolError::WireValueOutOfRange {
        field: "file list index",
        value: index,
        max: MAX_INDEX as i64,
    }
}

/// The record at a position, after some entries of its list. Every entry has
/// an index.
#[verifier::opaque]
pub open spec fn next_record(
    s: Seq<u8>,
    p: int,
    st: DeltaView,
    o: FileListOptions,
    prev: Seq<EntryView>,
) -> Result<(RecordView, int), ProtocolErrorView> {
    match record_at(s, p, st, o, prev) {
        Ok((RecordView::Entry(e, first), q)) => if st.ndx_start + prev.len() > MAX_INDEX {
            Err(no_index_left(st.ndx_start + prev.len()))
        } else {
            Ok((RecordView::Entry(e, first), q))
        },
        r => r,
    }
}

/// Reading a record goes on, and behind the end there is none.
pub proof fn record_goes_on(
    s: Seq<u8>,
    p: int,
    st: DeltaView,
    o: FileListOptions,
    prev: Seq<EntryView>,
)
    ensures
        next_record(s, p, st, o, prev) is Ok ==> p < next_record(s, p, st, o, prev)->Ok_0.1,
        p >= s.len() ==> next_record(s, p, st, o, prev) == Err::<
            (RecordView, int),
            ProtocolErrorView,
        >(crate::error::eof_error()),
{
    reveal(next_record);
    fields_go_on(s, p, 0, st, o);
    match flags_at(s, p, o) {
        Ok((DecodedFlags::Entry(flags), q)) => {
            fields_go_on(s, q, flags, st, o);
            match name_at(s, q, st.prev_name, flags, o.protocol_version) {
                Ok((name, q2)) => {
                    match hlink_at(s, q2, flags, o, prev, name, st.ndx_start) {
                        Ok((_, q3)) => {
                            body_goes_on(s, q3, flags, name, st, o);
                        },
                        Err(_) => {},
                    }
                },
                Err(_) => {},
            }
        },
        _ => {},
    }
}

/// An entry is read only where it has an index.
pub proof fn entry_has_index(
    s: Seq<u8>,
    p: int,
    st: DeltaView,
    o: FileListOptions,
    prev: Seq<EntryView>,
)
    ensures
        match next_record(s, p, st, o, prev) {
            Ok((RecordView::Entry(..), _)) => st.ndx_start + prev.len() <= MAX_INDEX,
            _ => true,
        },
{
    reveal(next_record);
}

/// Reads one record.
pub(crate) fn read_record(
    r: &mut WireReader,
    state: &mut DeltaState,
    opts: &FileListOptions,
    links: &mut HardLinkDecoder,
    prev: &[FileEntry],
) -> (res: Result<ReadEntryResult, ProtocolError>)
    requires
        old(r).wf(),
        0 <= old(state)@.ndx_start,
        prev.len() <= i32::MAX,
    ensures
        final(r).wf(),
        final(r).buf@ == old(r).buf@,
        match next_record(
            old(r).buf@,
            old(r).pos as int,
            old(state)@,
            *opts,
            entry_views(prev@),
        ) {
            Ok((RecordView::Entry(e, _), p)) => {
                &&& res is Ok
                &&& res->Ok_0 is Entry
                &&& res->Ok_0->Entry_0@ == e
                &&& final(r).pos == p
                &&& final(state)@ == old(state)@.after(e)
            },
            Ok((RecordView::EndOfList { io_error }, p)) => {
                &&& res is Ok
                &&& res->Ok_0 == (ReadEntryResult::EndOfList { io_error })
                &&& final(r).pos == p
                &&& final(state)@ == old(state)@
            },
            Err(f) => res is Err && res->Err_0@ == f && final(state)@ == old(state)@,
        },
{
    reveal(next_record);
    let index: i64 = state.ndx_start as i64 + prev.len() as i64;
    if index <= MAX_INDEX as i64 {
        return decode_entry(r, state, opts, links, prev);
    }
    let mut next = state.clone();
    match decode_entry(r, &mut next, opts, links, prev) {
        Ok(ReadEntryResult::Entry(_)) => Err(make_no_index_left(index)),
        other => other,
    }
}

/// A list that was read: its entries, the error code at its end, what the
/// decoder remembers, and the position behind it.
#[verifier::ext_equal]
pub struct ListView {
    pub entries: Seq<EntryView>,
    pub io_error: i32,
    pub state: DeltaView,
    pub end: int,
}

/// The rest of a list at a position, after some of its entries.
pub open spec fn list_at(
    s: Seq<u8>,
    p: int,
    st: DeltaView,
    o: FileListOptions,
    prev: Seq<EntryView>,
) -> Result<ListView, ProtocolErrorView>
    decreases
            (if p < s.len() {
                s.len() - p
            } else {
                0
            }),
{
    if p >= s.len() {
        Err(crate::error::eof_error())
    } else {
        proof {
            record_goes_on(s, p, st, o, prev);
        }
        match next_record(s, p, st, o, prev) {
            Err(e) => Err(e),
            Ok((RecordView::EndOfList { io_error }, q)) => Ok(
                ListView { entries: prev, io_error, state: st, end: q },
            ),
            Ok((RecordView::Entry(e, _), q)) => list_at(s, q, st.after(e), o, prev.push(e)),
        }
    }
}

/// The entries that are read of a list, also where it cannot be read to its
/// end, and what the decoder remembers of them.
pub open spec fn list_left(
    s: Seq<u8>,
    p: int,
    st: DeltaView,
    o: FileListOptions,
    prev: Seq<EntryView>,
) -> (Seq<EntryView>, DeltaView)
    decreases
            (if p < s.len() {
                s.len() - p
            } else {
                0
            }),
{
    if p >= s.len() {
        (prev, st)
    } else {
        proof {
            record_goes_on(s, p, st, o, prev);
        }
        match next_record(s, p, st, o, prev) {
            Ok((RecordView::Entry(e, _), q)) => list_left(s, q, st.after(e), o, prev.push(e)),
            _ => (prev, st),
        }
    }
}

/// A list ends behind its entries.
pub proof fn list_goes_past(
    s: Seq<u8>,
    p: int,
    st: DeltaView,
    o: FileListOptions,
    prev: Seq<EntryView>,
)
    ensures
        ({
            let l = list_at(s, p, st, o, prev);
            l is Ok ==> p + l->Ok_0.entries.len() - prev.len() < l->Ok_0.end
        }),
    decreases
            (if p < s.len() {
                s.len() - p
            } else {
                0
            }),
{
    if p < s.len() {
        record_goes_on(s, p, st, o, prev);
        match next_record(s, p, st, o, prev) {
            Ok((RecordView::Entry(e, _), q)) => {
                list_goes_past(s, q, st.after(e), o, prev.push(e));
            },
            _ => {},
        }
    }
}

/// Reads a list up to its end.
pub fn read_list(r: &mut WireReader, state: &mut DeltaState, opts: &FileListOptions) -> (res: Result<
    (Vec<FileEntry>, i32),
    ProtocolError,
>)
    requires
        old(r).wf(),
        0 <= old(state)@.ndx_start,
    ensures
        final(r).wf(),
        final(r).buf@ == old(r).buf@,
        final(state)@ == list_left(
            old(r).buf@,
            old(r).pos as int,
            old(state)@,
            *opts,
            Seq::empty(),
        ).1,
        match list_at(old(r).buf@, old(r).pos as int, old(state)@, *opts, Seq::empty()) {
            Ok(l) => {
                &&& res is Ok
                &&& entry_views(res->Ok_0.0@) == l.entries
                &&& res->Ok_0.1 == l.io_error
                &&& final(state)@ == l.state
                &&& final(r).pos == l.end
                &&& old(r).pos + l.entries.len() < l.end
                &&& l.entries.len() == 0 || old(state)@.ndx_start + l.entries.len() - 1 <= MAX_INDEX
            },
            Err(e) => res is Err && res->Err_0@ == e,
        },
{
    let (entries, end) = read_entries(r, state, opts);
    match end {
        Ok(io_error) => Ok((entries, io_error)),
        Err(e) => Err(e),
    }
}

/// Reads a list as far as it can be read: its entries, and the error code at
/// its end.
pub(crate) fn read_entries(r: &mut WireReader, state: &mut DeltaState, opts: &FileListOptions) -> (res:
    (Vec<FileEntry>, Result<i32, ProtocolError>))
    requires
        old(r).wf(),
        0 <= old(state)@.ndx_start,
    ensures
        final(r).wf(),
        final(r).buf@ == old(r).buf@,
        (entry_views(res.0@), final(state)@) == list_left(
            old(r).buf@,
            old(r).pos as int,
            old(state)@,
            *opts,
            Seq::empty(),
        ),
        res.0@.len() == 0 || old(state)@.ndx_start + res.0@.len() - 1 <= MAX_INDEX,
        match list_at(old(r).buf@, old(r).pos as int, old(state)@, *opts, Seq::empty()) {
            Ok(l) => {
                &&& res.1 == Ok::<i32, ProtocolError>(l.io_error)
                &&& entry_views(res.0@) == l.entries
                &&& final(state)@ == l.state
                &&& final(r).pos == l.end
                &&& old(r).pos + l.entries.len() < l.end
            },
            Err(e) => res.1 is Err && res.1->Err_0@ == e,
        },
{
    let ghost s = r.buf@;
    let ghost p0 = r.pos as int;
    let ghost want = list_at(s, p0, state@, *opts, Seq::empty());
    let ghost left = list_left(s, p0, state@, *opts, Seq::empty());
    let mut entries: Vec<FileEntry> = Vec::new();
    let mut links = HardLinkDecoder::new();
    assert(entry_views(entries@) =~= Seq::empty());
    loop
        invariant
            r.wf(),
            r.buf@ == s,
            s == old(r).buf@,
            p0 == old(r).pos,
            want == list_at(s, p0, old(state)@, *opts, Seq::empty()),
            left == list_left(s, p0, old(state)@, *opts, Seq::empty()),
            0 <= state@.ndx_start,
            state@.ndx_start == old(state)@.ndx_start,
            entries.len() == 0 || state@.ndx_start + entries.len() - 1 <= MAX_INDEX,
            p0 + entries.len() <= r.pos,
            0 <= p0,
            want == list_at(s, r.pos as int, state@, *opts, entry_views(entries@)),
            left == list_left(s, r.pos as int, state@, *opts, entry_views(entries@)),
        decreases r.buf.len() - r.pos,
    {
        let ghost st = state@;
        let ghost prev = entry_views(entries@);
        let ghost p = r.pos as int;
        proof {
            record_goes_on(s, p, st, *opts, prev);
            entry_has_index(s, p, st, *opts, prev);
        }
        match read_record(r, state, opts, &mut links, entries.as_slice()) {
            Err(e) => {
                return (entries, Err(e));
            },
            Ok(ReadEntryResult::EndOfList { io_error }) => {
                return (entries, Ok(io_error));
            },
            Ok(ReadEntryResult::Entry(e)) => {
                let ghost ev = e@;
                entries.push(e);
                assert(entry_views(entries@) =~= prev.push(ev));
            },
        }
    }
}

// ---------------------------------------------------------------------------
// What is sent is received
// ---------------------------------------------------------------------------

/// What the decoder remembers after entries, the first of which has an index.
pub open spec fn read_state(got: Seq<EntryView>, start: int) -> DeltaView
    decreases got.len(),
{
    if got.len() == 0 {
        DeltaView { ndx_start: start as i32, ..DeltaView::initial() }
    } else {
        read_state(got.drop_last(), start).after(got.last())
    }
}

/// What the other side has of an entry, after the entries before it: what was
/// sent of it, or for a further link to a file a copy of the first.
pub open spec fn got_entry(
    es: Seq<EntryView>,
    e: EntryView,
    got: Seq<EntryView>,
    o: FileListOptions,
    start: int,
) -> EntryView {
    let act = sent_action(es, e, o, start);
    match act {
        HardLinkAction::DuplicateOf(first) => linked_entry(
            got[first - start],
            e.name,
            wire_flags(entry_flags(e, sent_state(es), o, act), o),
        ),
        _ => received(e, sent_state(es), read_state(got, start), o, act),
    }
}

/// What the other side has of a list.
pub open spec fn got_list(es: Seq<EntryView>, o: FileListOptions, start: int) -> Seq<EntryView>
    decreases es.len(),
{
    if es.len() == 0 {
        Seq::empty()
    } else {
        let h = es.drop_last();
        let got = got_list(h, o, start);
        got.push(got_entry(h, es.last(), got, o, start))
    }
}

/// An entry fits the wire format where it stands in a list. A further link to
/// a file has the time, the mode and the owners of the first.
pub open spec fn entry_fits(
    es: Seq<EntryView>,
    e: EntryView,
    got: Seq<EntryView>,
    o: FileListOptions,
    start: int,
) -> bool {
    let act = sent_action(es, e, o, start);
    let g = got_entry(es, e, got, o, start);
    &&& act == HardLinkAction::NotHardLinked || o.protocol_version >= 28
    &&& if act is DuplicateOf {
        &&& e.name.len() <= MAX_NAME_LEN
        &&& g.mtime == e.mtime && g.mode == e.mode
        &&& o.preserve_uid ==> g.uid == e.uid
        &&& o.preserve_gid ==> g.gid == e.gid
    } else {
        sendable(e, sent_state(es), read_state(got, start), o)
    }
}

/// Every entry of a list fits the wire format.
pub open spec fn list_fits(es: Seq<EntryView>, o: FileListOptions, start: int) -> bool
    decreases es.len(),
{
    es.len() == 0 || {
        let h = es.drop_last();
        list_fits(h, o, start) && entry_fits(h, es.last(), got_list(h, o, start), o, start)
    }
}

proof fn links_in_range(es: Seq<EntryView>, o: FileListOptions, start: int)
    requires
        0 <= start,
        start + es.len() <= i32::MAX,
    ensures
        forall|k: u128| #[trigger]
            sent_links(es, o, start).dom().contains(k) ==> start <= sent_links(es, o, start)[k]
                < start + es.len(),
    decreases es.len(),
{
    if es.len() > 0 {
        links_in_range(es.drop_last(), o, start);
        let m = sent_links(es, o, start);
        let h = sent_links(es.drop_last(), o, start);
        assert forall|k: u128| #[trigger] m.dom().contains(k) implies start <= m[k] < start
            + es.len() by {
            if h.dom().contains(k) {
            }
        }
    }
}

/// As many entries are received as were sent.
pub proof fn got_len(es: Seq<EntryView>, o: FileListOptions, start: int)
    ensures
        got_list(es, o, start).len() == es.len(),
    decreases es.len(),
{
    if es.len() > 0 {
        got_len(es.drop_last(), o, start);
    }
}

proof fn read_start(got: Seq<EntryView>, start: int)
    ensures
        read_state(got, start).ndx_start == start as i32,
    decreases got.len(),
{
    if got.len() > 0 {
        read_start(got.drop_last(), start);
    }
}

/// Encoder and decoder stay in step over a list.
proof fn lists_in_step(es: Seq<EntryView>, o: FileListOptions, start: int)
    requires
        o.wf(),
        list_fits(es, o, start),
    ensures
        in_step(sent_state(es), read_state(got_list(es, o, start), start), o),
    decreases es.len(),
{
    if es.len() > 0 {
        let h = es.drop_last();
        let got = got_list(h, o, start);
        lists_in_step(h, o, start);
        let all = got_list(es, o, start);
        assert(all.drop_last() =~= got);
        assert(all.last() == got_entry(h, es.last(), got, o, start));
    }
}

/// One entry of a list is read back.
proof fn one_read_back(
    s: Seq<u8>,
    p: int,
    h: Seq<EntryView>,
    e: EntryView,
    o: FileListOptions,
    start: int,
)
    requires
        o.wf(),
        0 <= start,
        start + h.len() <= MAX_INDEX,
        list_fits(h, o, start),
        entry_fits(h, e, got_list(h, o, start), o, start),
        holds_at(s, p, entry_bytes(e, sent_state(h), o, sent_action(h, e, o, start))),
    ensures
        ({
            let got = got_list(h, o, start);
            let b = entry_bytes(e, sent_state(h), o, sent_action(h, e, o, start));
            let r = next_record(s, p, read_state(got, start), o, got);
            r is Ok && r->Ok_0.0 is Entry && r->Ok_0.0->Entry_0 == got_entry(
                h,
                e,
                got,
                o,
                start,
            ) && r->Ok_0.1 == p + b.len()
        }),
{
    reveal(next_record);
    let got = got_list(h, o, start);
    let act = sent_action(h, e, o, start);
    let enc = sent_state(h);
    let dec = read_state(got, start);
    lists_in_step(h, o, start);
    got_len(h, o, start);
    read_start(got, start);
    match act {
        HardLinkAction::DuplicateOf(first) => {
            links_in_range(h, o, start);
            duplicate_read_back(s, p, e, enc, dec, o, first, got);
        },
        _ => {
            entry_read_back(s, p, e, enc, dec, o, act, got);
        },
    }
}

/// Reading a list from its start comes to the same as reading on behind some of
/// its entries.
proof fn list_goes_on(
    s: Seq<u8>,
    p: int,
    es: Seq<EntryView>,
    o: FileListOptions,
    start: int,
)
    requires
        0 <= p,
        o.wf(),
        0 <= start,
        start + es.len() < i32::MAX,
        list_fits(es, o, start),
        holds_at(s, p, entries_bytes(es, o, start)),
    ensures
        ({
            let got = got_list(es, o, start);
            list_at(s, p, read_state(Seq::empty(), start), o, Seq::empty()) == list_at(
                s,
                p + entries_bytes(es, o, start).len(),
                read_state(got, start),
                o,
                got,
            )
        }),
    decreases es.len(),
{
    if es.len() > 0 {
        let h = es.drop_last();
        let e = es.last();
        let a = entries_bytes(h, o, start);
        let b = entry_bytes(e, sent_state(h), o, sent_action(h, e, o, start));
        let got = got_list(h, o, start);
        holds_split(s, p, a, b);
        list_goes_on(s, p, h, o, start);
        one_read_back(s, p + a.len(), h, e, o, start);
        record_goes_on(s, p + a.len(), read_state(got, start), o, got);
        let all = got_list(es, o, start);
        assert(all.drop_last() =~= got);
        assert(all == got.push(got_entry(h, e, got, o, start)));
    }
}

/// A list that was sent is received: every entry, in order, as the wire format
/// carries it.
pub proof fn list_read_back(
    s: Seq<u8>,
    p: int,
    es: Seq<EntryView>,
    o: FileListOptions,
    start: int,
)
    requires
        0 <= p,
        o.wf(),
        0 <= start,
        start + es.len() < i32::MAX,
        list_fits(es, o, start),
        holds_at(s, p, entries_bytes(es, o, start) + end_bytes(0, o)),
    ensures
        ({
            let got = got_list(es, o, start);
            list_at(s, p, read_state(Seq::empty(), start), o, Seq::empty()) == Ok::<
                ListView,
                ProtocolErrorView,
            >(
                ListView {
                    entries: got,
                    io_error: 0,
                    state: read_state(got, start),
                    end: p + entries_bytes(es, o, start).len() + end_bytes(0, o).len(),
                },
            )
        }),
        got_list(es, o, start).len() == es.len(),
        forall|i: int|
            0 <= i < es.len() ==> (#[trigger] got_list(es, o, start)[i]).name == es[i].name,
{
    let a = entries_bytes(es, o, start);
    let b = end_bytes(0, o);
    let q = p + a.len();
    let got = got_list(es, o, start);
    holds_split(s, p, a, b);
    list_goes_on(s, p, es, o, start);
    assert(next_record(s, q, read_state(got, start), o, got) == Ok::<
        (RecordView, int),
        ProtocolErrorView,
    >((RecordView::EndOfList { io_error: 0 }, q + b.len()))) by {
        reveal(next_record);
        end_read_back(s, q, 0, o);
    }
    record_goes_on(s, q, read_state(got, start), o, got);
    got_len(es, o, start);
    got_names(es, o, start);
}

proof fn got_names(es: Seq<EntryView>, o: FileListOptions, start: int)
    ensures
        got_list(es, o, start).len() == es.len(),
        forall|i: int|
            0 <= i < es.len() ==> (#[trigger] got_list(es, o, start)[i]).name == es[i].name,
    decreases es.len(),
{
    if es.len() > 0 {
        let h = es.drop_last();
        got_names(h, o, start);
        let all = got_list(es, o, start);
        let got = got_list(h, o, start);
        assert forall|i: int| 0 <= i < es.len() implies (#[trigger] all[i]).name == es[i].name by {
            if i < h.len() {
                assert(all[i] == got[i]);
                assert(h[i] == es[i]);
            }
        }
    }
}

} // verus!

//! The sender's side of a transfer over the wire.
//!
//! The generator of the other side asks for files by index. Each request is
//! read and answered here; matching blocks and sending the data is left to the
//! caller, who hands back how much was sent.

use std::collections::HashMap;

use vstd::prelude::*;

use crate::engine::progress::{
    after_events, event_views, push_event, EventView, ProgressEvent, ProgressTracker, TrackerView,
};
use crate::engine::wire_transfer::{done_bytes, done_marker, WireFormat};
use crate::error::{ProtocolError, ProtocolErrorView};
use crate::filelist::entry::{copy_bytes, entry_views, file_type, EntryView, FileEntry, S_IFREG};
use crate::fs::metadata::STREAMING_THRESHOLD;
use crate::protocol::sum::{empty_head, sum_head_bytes, write_sum_head, SumHead};
use crate::protocol::varint::{
    ndx_at, ndx_bytes, ndx_next, ndx_read_next, read_ndx, read_varint, varint_at, varint_bytes,
    write_ndx, write_shortint, write_varint, NdxState, NDX_DONE,
};
use crate::protocol::wire::{
    byte_at, bytes_at, get_le, le_bytes, le_value, read_byte, read_bytes, WireReader,
};
use crate::stats::TransferStats;

verus! {

broadcast use vstd::std_specs::hash::group_hash_axioms;

/// The file's data is asked for.
pub const ITEM_TRANSFER: u16 = 0x8000;

/// A byte that tells the kind of basis follows.
pub const ITEM_BASIS_TYPE_FOLLOWS: u16 = 0x0800;

/// A name follows.
pub const ITEM_XNAME_FOLLOWS: u16 = 0x1000;

/// The longest name that is accepted.
pub const MAX_XNAME: u32 = 0x10000;

// ---------------------------------------------------------------------------
// Item flags
// ---------------------------------------------------------------------------

/// The error of a name that is too long.
pub open spec fn xname_too_long(n: u32) -> ProtocolErrorView {
    ProtocolErrorView::WireValueOutOfRange {
        field: "xname_len"@,
        value: n as i64,
        max: MAX_XNAME as i64,
    }
}

/// Where a name at a position ends.
pub open spec fn xname_at(s: Seq<u8>, p: int) -> Result<int, ProtocolErrorView> {
    match varint_at(s, p) {
        Err(e) => Err(e),
        Ok((n, q)) => if n > MAX_XNAME {
            Err(xname_too_long(n))
        } else {
            match bytes_at(s, q, n as int) {
                Err(e) => Err(e),
                Ok((_, q2)) => Ok(q2),
            }
        },
    }
}

/// The flags of an item at a position, and where what they announce ends.
pub open spec fn item_flags_at(s: Seq<u8>, p: int) -> Result<(u16, int), ProtocolErrorView> {
    match bytes_at(s, p, 2) {
        Err(e) => Err(e),
        Ok((b, q)) => {
            let flags = le_value(b) as u16;
            let basis = if flags & ITEM_BASIS_TYPE_FOLLOWS != 0 {
                match byte_at(s, q) {
                    Err(e) => Err(e),
                    Ok((_, q2)) => Ok(q2),
                }
            } else {
                Ok(q)
            };
            match basis {
                Err(e) => Err(e),
                Ok(q2) => if flags & ITEM_XNAME_FOLLOWS != 0 {
                    match xname_at(s, q2) {
                        Err(e) => Err(e),
                        Ok(q3) => Ok((flags, q3)),
                    }
                } else {
                    Ok((flags, q2))
                },
            }
        },
    }
}

fn skip_xname(r: &mut WireReader) -> (res: Result<(), ProtocolError>)
    requires
        old(r).wf(),
    ensures
        final(r).wf(),
        final(r).buf@ == old(r).buf@,
        match xname_at(old(r).buf@, old(r).pos as int) {
            Ok(q) => res is Ok && final(r).pos == q,
            Err(e) => res is Err && res->Err_0@ == e,
        },
{
    match read_varint(r) {
        Err(e) => Err(e),
        Ok(n) => if n > MAX_XNAME {
            Err(
                ProtocolError::WireValueOutOfRange {
                    field: "xname_len",
                    value: n as i64,
                    max: MAX_XNAME as i64,
                },
            )
        } else {
            match read_bytes(r, n as usize) {
                Err(e) => Err(e),
                Ok(_) => Ok(()),
            }
        },
    }
}

/// Reads the flags of an item and passes over what they announce.
pub fn read_item_flags(r: &mut WireReader) -> (res: Result<u16, ProtocolError>)
    requires
        old(r).wf(),
    ensures
        final(r).wf(),
        final(r).buf@ == old(r).buf@,
        match item_flags_at(old(r).buf@, old(r).pos as int) {
            Ok((f, q)) => res == Ok::<u16, ProtocolError>(f) && final(r).pos == q,
            Err(e) => res is Err && res->Err_0@ == e,
        },
{
    let b: Vec<u8> = match read_bytes(r, 2) {
        Err(e) => {
            return Err(e);
        },
        Ok(b) => b,
    };
    let flags: u16 = get_le(b.as_slice(), 0, 2) as u16;
    assert(b@.subrange(0, 2) =~= b@);
    if flags & ITEM_BASIS_TYPE_FOLLOWS != 0 {
        match read_byte(r) {
            Err(e) => {
                return Err(e);
            },
            Ok(_) => {},
        }
    }
    if flags & ITEM_XNAME_FOLLOWS != 0 {
        match skip_xname(r) {
            Err(e) => {
                return Err(e);
            },
            Ok(_) => {},
        }
    }
    Ok(flags)
}

// ---------------------------------------------------------------------------
// Requests
// ---------------------------------------------------------------------------

/// What the generator asks.
#[derive(Debug, Clone, Copy, PartialEq, Eq, Structural)]
pub enum Request {
    /// A phase is over.
    Done,
    /// A marker that is of no concern here.
    Marker,
    /// A file.
    File { ndx: i32, flags: u16 },
}

/// The request at a position.
pub open spec fn request_at(s: Seq<u8>, p: int, st: NdxState, wire: WireFormat) -> Result<
    (Request, int),
    ProtocolErrorView,
> {
    match ndx_at(s, p, st, wire.version) {
        Err(e) => Err(e),
        Ok((ndx, q)) => if ndx == NDX_DONE {
            Ok((Request::Done, q))
        } else if ndx < NDX_DONE {
            Ok((Request::Marker, q))
        } else if wire.item_flags() {
            match item_flags_at(s, q) {
                Err(e) => Err(e),
                Ok((flags, q2)) => Ok((Request::File { ndx, flags }, q2)),
            }
        } else {
            Ok((Request::File { ndx, flags: 0 }, q))
        },
    }
}

/// What is remembered of indices after a request.
pub open spec fn after_request(s: Seq<u8>, p: int, st: NdxState, wire: WireFormat) -> NdxState {
    match ndx_at(s, p, st, wire.version) {
        Ok((ndx, _)) => ndx_read_next(s[p], ndx, st, wire.version),
        Err(_) => st,
    }
}

/// Reads a request. Where that fails nothing is remembered of it.
pub fn read_request(r: &mut WireReader, st: &mut NdxState, wire: &WireFormat) -> (res: Result<
    Request,
    ProtocolError,
>)
    requires
        old(r).wf(),
    ensures
        final(r).wf(),
        final(r).buf@ == old(r).buf@,
        match request_at(old(r).buf@, old(r).pos as int, *old(st), *wire) {
            Ok((q, p)) => {
                &&& res == Ok::<Request, ProtocolError>(q)
                &&& final(r).pos == p
                &&& *final(st) == after_request(old(r).buf@, old(r).pos as int, *old(st), *wire)
            },
            Err(e) => res is Err && res->Err_0@ == e && *final(st) == *old(st),
        },
{
    let mut next = *st;
    let ndx: i32 = match read_ndx(r, &mut next, wire.version) {
        Err(e) => {
            return Err(e);
        },
        Ok(v) => v,
    };
    if ndx == NDX_DONE {
        *st = next;
        return Ok(Request::Done);
    }
    if ndx < NDX_DONE {
        *st = next;
        return Ok(Request::Marker);
    }
    if wire.has_iflags() {
        match read_item_flags(r) {
            Err(e) => Err(e),
            Ok(flags) => {
                *st = next;
                Ok(Request::File { ndx, flags })
            },
        }
    } else {
        *st = next;
        Ok(Request::File { ndx, flags: 0 })
    }
}

// ---------------------------------------------------------------------------
// Answers
// ---------------------------------------------------------------------------

/// What the sender does about a request.
#[derive(Debug)]
pub enum SenderAction {
    /// The last phase is over; the bytes end the transfer.
    Finished { reply: Vec<u8> },
    /// The bytes answer the request.
    Reply { reply: Vec<u8> },
    /// Nothing.
    Nothing,
    /// The file of a dry run was counted.
    Counted,
    /// The signatures of the file are read, and its data is sent.
    Send { entry: usize, ndx: i32, flags: u16 },
}

/// The view of a [`SenderAction`].
#[verifier::ext_equal]
pub enum SenderActionView {
    Finished { reply: Seq<u8> },
    Reply { reply: Seq<u8> },
    Nothing,
    Counted,
    Send { entry: usize, ndx: i32, flags: u16 },
}

impl View for SenderAction {
    type V = SenderActionView;

    open spec fn view(&self) -> SenderActionView {
        match *self {
            SenderAction::Finished { reply } => SenderActionView::Finished { reply: reply@ },
            SenderAction::Reply { reply } => SenderActionView::Reply { reply: reply@ },
            SenderAction::Nothing => SenderActionView::Nothing,
            SenderAction::Counted => SenderActionView::Counted,
            SenderAction::Send { entry, ndx, flags } => SenderActionView::Send {
                entry,
                ndx,
                flags,
            },
        }
    }
}

/// The state of a sender.
#[verifier::ext_equal]
pub struct SenderView {
    /// The phase that is under way.
    pub phase: u32,
    /// What was read of indices.
    pub asked: NdxState,
    /// What was written of indices.
    pub answered: NdxState,
    pub stats: TransferStats,
    pub tracker: TrackerView,
}

/// The bytes that hand a notice on: the index, the flags, and empty places for
/// what they announce.
pub open spec fn echo_bytes(ndx: i32, flags: u16, st: NdxState, version: u8) -> Seq<u8> {
    ndx_bytes(ndx, st, version) + le_bytes(flags as nat, 2) + (if flags & ITEM_BASIS_TYPE_FOLLOWS
        != 0 {
        seq![0u8]
    } else {
        Seq::empty()
    }) + (if flags & ITEM_XNAME_FOLLOWS != 0 {
        varint_bytes(0)
    } else {
        Seq::empty()
    })
}

/// What a file of a dry run adds to the statistics.
pub open spec fn dry_counts(e: EntryView) -> TransferStats {
    TransferStats { files_transferred: 1, total_size: e.len as u64, ..TransferStats::zero() }
}

/// What a file that was sent adds to the statistics.
pub open spec fn sent_counts(e: EntryView, literal: u64, matched: u64) -> TransferStats {
    TransferStats {
        files_transferred: 1,
        total_size: e.len as u64,
        literal_data: literal,
        matched_data: matched,
        bytes_sent: literal,
        ..TransferStats::zero()
    }
}

/// The event that ends the work on a file.
pub open spec fn sent_event(ndx: i32, e: EntryView, literal: u64, matched: u64) -> EventView {
    EventView::FileComplete {
        index: ndx,
        name: e.name,
        literal_bytes: literal,
        matched_bytes: matched,
    }
}

impl SenderView {
    /// What is done about a request, in order: the end of a phase is answered,
    /// and the end of the last one ends the transfer; markers, unknown indices
    /// and what is no regular file are passed over; a notice that asks for no
    /// data is handed on; a dry run counts; else the data is sent.
    pub open spec fn action(
        self,
        req: Request,
        wire: WireFormat,
        entries: Seq<EntryView>,
        map: Map<i32, usize>,
        dry_run: bool,
    ) -> SenderActionView {
        match req {
            Request::Done => if self.phase + 1 > wire.phase_count {
                SenderActionView::Finished { reply: done_bytes(wire.version) }
            } else {
                SenderActionView::Reply { reply: done_bytes(wire.version) }
            },
            Request::Marker => SenderActionView::Nothing,
            Request::File { ndx, flags } => if !map.dom().contains(ndx) || file_type(
                entries[map[ndx] as int].mode,
            ) != S_IFREG {
                SenderActionView::Nothing
            } else if wire.item_flags() && flags & ITEM_TRANSFER == 0 {
                SenderActionView::Reply {
                    reply: echo_bytes(ndx, flags, self.answered, wire.version),
                }
            } else if dry_run {
                SenderActionView::Counted
            } else {
                SenderActionView::Send { entry: map[ndx], ndx, flags }
            },
        }
    }

    /// The state after a request.
    pub open spec fn after(
        self,
        req: Request,
        asked: NdxState,
        wire: WireFormat,
        entries: Seq<EntryView>,
        map: Map<i32, usize>,
        dry_run: bool,
    ) -> SenderView {
        let v = SenderView { asked, ..self };
        match self.action(req, wire, entries, map, dry_run) {
            SenderActionView::Finished { .. } => SenderView {
                phase: (self.phase + 1) as u32,
                ..v
            },
            SenderActionView::Reply { .. } => match req {
                Request::File { ndx, .. } => SenderView {
                    answered: ndx_next(ndx, self.answered, wire.version),
                    ..v
                },
                _ => SenderView { phase: (self.phase + 1) as u32, ..v },
            },
            SenderActionView::Counted => match req {
                Request::File { ndx, .. } => {
                    let e = entries[map[ndx] as int];
                    SenderView {
                        stats: self.stats.plus(dry_counts(e)),
                        tracker: after_events(
                            self.tracker,
                            seq![sent_event(ndx, e, e.len as u64, 0)],
                        ),
                        ..v
                    }
                },
                _ => v,
            },
            _ => v,
        }
    }

    /// The state once a file is announced.
    pub open spec fn announced(self, ndx: i32, e: EntryView, version: u8) -> SenderView {
        SenderView {
            answered: ndx_next(ndx, self.answered, version),
            tracker: after_events(
                self.tracker,
                seq![EventView::FileStart { index: ndx, name: e.name, size: e.len }],
            ),
            ..self
        }
    }

    /// The state once a file was sent.
    pub open spec fn sent(self, ndx: i32, e: EntryView, literal: u64, matched: u64) -> SenderView {
        SenderView {
            stats: self.stats.plus(sent_counts(e, literal, matched)),
            tracker: after_events(self.tracker, seq![sent_event(ndx, e, literal, matched)]),
            ..self
        }
    }
}

/// The head that answers the signatures of a file.
pub open spec fn answer_head(h: SumHead) -> SumHead {
    if h.count == 0 {
        empty_head()
    } else {
        h
    }
}

/// The bytes that announce a file's data: the index, the flags from protocol 29
/// on, and the head.
pub open spec fn announce_bytes(
    ndx: i32,
    flags: u16,
    head: SumHead,
    st: NdxState,
    wire: WireFormat,
) -> Seq<u8> {
    ndx_bytes(ndx, st, wire.version) + (if wire.item_flags() {
        le_bytes(flags as nat, 2)
    } else {
        Seq::empty()
    }) + sum_head_bytes(answer_head(head))
}

/// The sender's side of a transfer.
pub struct SenderLoop<'a> {
    entries: &'a [FileEntry],
    ndx_map: &'a HashMap<i32, usize>,
    wire: WireFormat,
    dry_run: bool,
    phase: u32,
    asked: NdxState,
    answered: NdxState,
    stats: TransferStats,
    progress: ProgressTracker,
}

impl<'a> View for SenderLoop<'a> {
    type V = SenderView;

    closed spec fn view(&self) -> SenderView {
        SenderView {
            phase: self.phase,
            asked: self.asked,
            answered: self.answered,
            stats: self.stats,
            tracker: self.progress@,
        }
    }
}

impl<'a> SenderLoop<'a> {
    /// The entries that can be asked for.
    pub closed spec fn list(&self) -> Seq<EntryView> {
        entry_views(self.entries@)
    }

    /// The entry of each index.
    pub closed spec fn map(&self) -> Map<i32, usize> {
        self.ndx_map@
    }

    /// The wire format.
    pub closed spec fn format(&self) -> WireFormat {
        self.wire
    }

    /// Whether nothing is transferred.
    pub closed spec fn dry(&self) -> bool {
        self.dry_run
    }

    /// Every index stands for an entry.
    pub open spec fn wf(&self) -> bool {
        forall|k: i32| #[trigger]
            self.map().dom().contains(k) ==> self.map()[k] < self.list().len()
    }

    /// What does not change.
    pub open spec fn same_session(&self, other: &Self) -> bool {
        &&& self.list() == other.list()
        &&& self.map() == other.map()
        &&& self.format() == other.format()
        &&& self.dry() == other.dry()
    }

    /// A sender at its start.
    pub fn new(
        entries: &'a [FileEntry],
        ndx_map: &'a HashMap<i32, usize>,
        wire: WireFormat,
        dry_run: bool,
        stats: TransferStats,
        progress: ProgressTracker,
    ) -> (r: Self)
        requires
            forall|k: i32| #[trigger]
                ndx_map@.dom().contains(k) ==> ndx_map@[k] < entries@.len(),
        ensures
            r.wf(),
            r.list() == entry_views(entries@),
            r.map() == ndx_map@,
            r.format() == wire,
            r.dry() == dry_run,
            r@ == (SenderView {
                phase: 0,
                asked: NdxState::initial(),
                answered: NdxState::initial(),
                stats,
                tracker: progress@,
            }),
    {
        SenderLoop {
            entries,
            ndx_map,
            wire,
            dry_run,
            phase: 0,
            asked: NdxState::default(),
            answered: NdxState::default(),
            stats,
            progress,
        }
    }

    /// Answers a request that was read.
    pub fn answer(&mut self, req: Request, asked: NdxState) -> (r: SenderAction)
        requires
            old(self).wf(),
            req is File ==> req->ndx >= 0,
            old(self)@.phase < u32::MAX,
            old(self)@.tracker.files_done < u64::MAX,
            ({
                let a = old(self)@.action(
                    req,
                    old(self).format(),
                    old(self).list(),
                    old(self).map(),
                    old(self).dry(),
                );
                a is Counted ==> old(self)@.stats.fits(
                    dry_counts(old(self).list()[old(self).map()[req->ndx] as int]),
                )
            }),
        ensures
            final(self).wf(),
            final(self).same_session(old(self)),
            r@ == old(self)@.action(
                req,
                old(self).format(),
                old(self).list(),
                old(self).map(),
                old(self).dry(),
            ),
            final(self)@ == old(self)@.after(
                req,
                asked,
                old(self).format(),
                old(self).list(),
                old(self).map(),
                old(self).dry(),
            ),
    {
        let ghost v = self@;
        let wire = self.wire;
        self.asked = asked;
        match req {
            Request::Done => {
                self.phase = self.phase + 1;
                let reply = done_marker(wire.version);
                if self.phase > wire.phase_count {
                    SenderAction::Finished { reply }
                } else {
                    SenderAction::Reply { reply }
                }
            },
            Request::Marker => SenderAction::Nothing,
            Request::File { ndx, flags } => {
                let at: usize = match self.ndx_map.get(&ndx) {
                    Some(i) => *i,
                    None => {
                        return SenderAction::Nothing;
                    },
                };
                let entry = &self.entries[at];
                if !entry.is_file() {
                    return SenderAction::Nothing;
                }
                if wire.has_iflags() && flags & ITEM_TRANSFER == 0 {
                    let mut reply: Vec<u8> = Vec::new();
                    let mut st = self.answered;
                    write_ndx(&mut reply, ndx, &mut st, wire.version);
                    write_shortint(&mut reply, flags);
                    if flags & ITEM_BASIS_TYPE_FOLLOWS != 0 {
                        reply.push(0);
                    }
                    if flags & ITEM_XNAME_FOLLOWS != 0 {
                        write_varint(&mut reply, 0);
                    }
                    assert(reply@ =~= echo_bytes(ndx, flags, v.answered, wire.version));
                    self.answered = st;
                    return SenderAction::Reply { reply };
                }
                if self.dry_run {
                    let mut d = TransferStats::new();
                    d.files_transferred = 1;
                    d.total_size = entry.len as u64;
                    assert(d == dry_counts(entry@));
                    let mut events: Vec<ProgressEvent> = Vec::new();
                    assert(event_views(events@) =~= Seq::empty());
                    push_event(&mut events, complete(ndx, entry, entry.len as u64, 0));
                    assert(event_views(events@) =~= seq![
                        sent_event(ndx, entry@, entry@.len as u64, 0),
                    ]);
                    self.stats.record(d);
                    self.progress.emit_all(events);
                    return SenderAction::Counted;
                }
                SenderAction::Send { entry: at, ndx, flags }
            },
        }
    }

    /// Reads the next request and answers it. Where it cannot be read nothing
    /// changes.
    pub fn step(&mut self, r: &mut WireReader) -> (res: Result<SenderAction, ProtocolError>)
        requires
            old(r).wf(),
            old(self).wf(),
            old(self)@.phase < u32::MAX,
            old(self)@.tracker.files_done < u64::MAX,
            forall|k: int|
                0 <= k < old(self).list().len() ==> old(self)@.stats.fits(
                    dry_counts(#[trigger] old(self).list()[k]),
                ),
        ensures
            final(r).wf(),
            final(r).buf@ == old(r).buf@,
            final(self).wf(),
            final(self).same_session(old(self)),
            ({
                let s = old(r).buf@;
                let p = old(r).pos as int;
                let v = old(self)@;
                let w = old(self).format();
                match request_at(s, p, v.asked, w) {
                    Err(e) => res is Err && res->Err_0@ == e && final(self)@ == v,
                    Ok((req, q)) => {
                        &&& res is Ok
                        &&& final(r).pos == q
                        &&& res->Ok_0@ == v.action(
                            req,
                            w,
                            old(self).list(),
                            old(self).map(),
                            old(self).dry(),
                        )
                        &&& final(self)@ == v.after(
                            req,
                            after_request(s, p, v.asked, w),
                            w,
                            old(self).list(),
                            old(self).map(),
                            old(self).dry(),
                        )
                    },
                }
            }),
    {
        let mut asked = self.asked;
        match read_request(r, &mut asked, &self.wire) {
            Err(e) => Err(e),
            Ok(req) => Ok(self.answer(req, asked)),
        }
    }

    /// Announces a file whose signatures were read: gives the bytes that stand
    /// before its data.
    pub fn announce(&mut self, entry: usize, ndx: i32, flags: u16, head: &SumHead) -> (r: Vec<u8>)
        requires
            old(self).wf(),
            entry < old(self).list().len(),
            ndx > i32::MIN,
            old(self)@.tracker.files_done < u64::MAX,
        ensures
            final(self).wf(),
            final(self).same_session(old(self)),
            r@ == announce_bytes(ndx, flags, *head, old(self)@.answered, old(self).format()),
            final(self)@ == old(self)@.announced(
                ndx,
                old(self).list()[entry as int],
                old(self).format().version,
            ),
    {
        let ghost v = self@;
        let wire = self.wire;
        let e = &self.entries[entry];
        let mut events: Vec<ProgressEvent> = Vec::new();
        assert(event_views(events@) =~= Seq::empty());
        push_event(
            &mut events,
            ProgressEvent::FileStart {
                index: ndx,
                name: copy_bytes(e.name.as_slice()),
                size: e.len,
            },
        );
        assert(event_views(events@) =~= seq![
            EventView::FileStart { index: ndx, name: e@.name, size: e@.len },
        ]);
        let mut out: Vec<u8> = Vec::new();
        let mut st = self.answered;
        write_ndx(&mut out, ndx, &mut st, wire.version);
        if wire.has_iflags() {
            write_shortint(&mut out, flags);
        }
        let answer = if head.count == 0 {
            SumHead { count: 0, blength: 0, s2length: 0, remainder: 0 }
        } else {
            *head
        };
        write_sum_head(&mut out, &answer);
        self.answered = st;
        self.progress.emit_all(events);
        assert(out@ =~= announce_bytes(ndx, flags, *head, v.answered, wire));
        assert(self@ =~= v.announced(ndx, e@, wire.version));
        assert(self.map() == old(self).map() && self.list() == old(self).list());
        out
    }

    /// Takes note of a file that was sent.
    pub fn file_sent(&mut self, entry: usize, ndx: i32, literal: u64, matched: u64)
        requires
            old(self).wf(),
            entry < old(self).list().len(),
            old(self)@.tracker.files_done < u64::MAX,
            old(self)@.stats.fits(
                sent_counts(old(self).list()[entry as int], literal, matched),
            ),
        ensures
            final(self).wf(),
            final(self).same_session(old(self)),
            final(self)@ == old(self)@.sent(
                ndx,
                old(self).list()[entry as int],
                literal,
                matched,
            ),
    {
        let ghost v = self@;
        let e = &self.entries[entry];
        let mut d = TransferStats::new();
        d.files_transferred = 1;
        d.total_size = e.len as u64;
        d.literal_data = literal;
        d.matched_data = matched;
        d.bytes_sent = literal;
        let mut events: Vec<ProgressEvent> = Vec::new();
        assert(event_views(events@) =~= Seq::empty());
        push_event(&mut events, complete(ndx, e, literal, matched));
        assert(event_views(events@) =~= seq![sent_event(ndx, e@, literal, matched)]);
        self.stats.record(d);
        self.progress.emit_all(events);
        assert(self@ =~= v.sent(ndx, e@, literal, matched));
        assert(self.map() == old(self).map() && self.list() == old(self).list());
    }

    /// Whether the data of an entry is sent piece by piece in place of being
    /// read whole.
    pub fn streams(&self, entry: usize) -> (r: bool)
        requires
            entry < self.list().len(),
        ensures
            r == (self.list()[entry as int].len >= STREAMING_THRESHOLD),
    {
        self.entries[entry].len >= STREAMING_THRESHOLD
    }

    /// What was done so far.
    pub fn stats(&self) -> (r: TransferStats)
        ensures
            r == self@.stats,
    {
        self.stats
    }

    /// Hands the tracker on.
    pub fn into_progress(self) -> (r: ProgressTracker)
        ensures
            r@ == self@.tracker,
    {
        self.progress
    }

    /// The events that nobody has seen yet.
    pub fn take_events(&mut self) -> (r: Vec<ProgressEvent>)
        requires
            old(self).wf(),
        ensures
            final(self).wf(),
            final(self).same_session(old(self)),
            event_views(r@) == old(self)@.tracker.pending,
            final(self)@ == (SenderView {
                tracker: TrackerView { pending: Seq::empty(), ..old(self)@.tracker },
                ..old(self)@
            }),
    {
        let ghost v = self@;
        let events = self.progress.take_events();
        assert(self@ =~= (SenderView {
            tracker: TrackerView { pending: Seq::empty(), ..v.tracker },
            ..v
        }));
        assert(self.map() == old(self).map() && self.list() == old(self).list());
        events
    }
}

fn complete(ndx: i32, entry: &FileEntry, literal: u64, matched: u64) -> (r: ProgressEvent)
    ensures
        r@ == sent_event(ndx, entry@, literal, matched),
{
    ProgressEvent::FileComplete {
        index: ndx,
        name: copy_bytes(entry.name.as_slice()),
        literal_bytes: literal,
        matched_bytes: matched,
    }
}

/// The state after ends of phases.
pub open spec fn after_phases(
    v: SenderView,
    n: nat,
    wire: WireFormat,
    entries: Seq<EntryView>,
    map: Map<i32, usize>,
    dry_run: bool,
) -> SenderView
    decreases n,
{
    if n == 0 {
        v
    } else {
        let b = after_phases(v, (n - 1) as nat, wire, entries, map, dry_run);
        b.after(Request::Done, b.asked, wire, entries, map, dry_run)
    }
}

/// Every end of a phase is answered with the end marker, and the one behind the
/// last phase ends the transfer: a receiver that ends each phase and awaits an
/// answer gets one each time.
pub proof fn every_phase_is_answered(
    v: SenderView,
    k: nat,
    wire: WireFormat,
    entries: Seq<EntryView>,
    map: Map<i32, usize>,
    dry_run: bool,
)
    requires
        v.phase == 0,
        k <= wire.phase_count,
        wire.phase_count < u32::MAX,
    ensures
        ({
            let b = after_phases(v, k, wire, entries, map, dry_run);
            &&& b.phase == k
            &&& b.action(Request::Done, wire, entries, map, dry_run) == (if k < wire.phase_count {
                SenderActionView::Reply { reply: done_bytes(wire.version) }
            } else {
                SenderActionView::Finished { reply: done_bytes(wire.version) }
            })
        }),
    decreases k,
{
    if k > 0 {
        every_phase_is_answered(v, (k - 1) as nat, wire, entries, map, dry_run);
    }
}

} // verus!

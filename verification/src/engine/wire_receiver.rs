//! The receiver's side of a transfer over the wire.
//!
//! The generator goes over the file list and asks the sender for data; the
//! receiver takes the answers in the same order. What is asked, what is
//! counted and what is left for later is decided here.

use vstd::prelude::*;

use crate::engine::progress::{
    after_events, event_views, push_event, EventView, ProgressEvent, ProgressTracker, TrackerView,
};
use crate::engine::receiver_engine::{
    count_links, deferred_views, links_created, ActionView, EntryAction, HandledKind,
};
use crate::engine::wire_sender::{
    announce_bytes, answer_head, item_flags_at, read_item_flags, request_at, sent_event, Request,
    ITEM_BASIS_TYPE_FOLLOWS, ITEM_TRANSFER, ITEM_XNAME_FOLLOWS,
};
use crate::engine::wire_transfer::WireFormat;
use crate::error::{ProtocolError, ProtocolErrorView};
use crate::filelist::entry::{copy_bytes, entry_views, EntryView, FileEntry};
use crate::protocol::sum::{
    block_length, block_length_or, read_sum_head, sum_head_at, sum_head_bytes,
    sum_head_read_back, write_sum_head, SumHead, DEFAULT_BLOCK_LENGTH,
};
use crate::protocol::varint::{
    ndx_at, ndx_bytes, ndx_next, ndx_read_back, ndx_read_next, read_ndx, write_ndx,
    write_shortint, NdxState,
};
use crate::protocol::wire::{
    holds_at, holds_split, le_bytes, le_bytes_len, le_read_back, write_bytes, WireReader,
};
use crate::stats::TransferStats;

verus! {

// ---------------------------------------------------------------------------
// Asking for data
// ---------------------------------------------------------------------------

/// The bytes that ask for a file: its index, the flags from protocol 29 on, and
/// the signatures of what the receiver has; only their head where data is
/// appended.
pub open spec fn ask_bytes(
    ndx: i32,
    head: SumHead,
    blocks: Seq<u8>,
    append: bool,
    st: NdxState,
    wire: WireFormat,
) -> Seq<u8> {
    ndx_bytes(ndx, st, wire.version) + (if wire.item_flags() {
        le_bytes(ITEM_TRANSFER as nat, 2)
    } else {
        Seq::empty()
    }) + sum_head_bytes(head) + (if append {
        Seq::empty()
    } else {
        blocks
    })
}

/// Asks for a file. `blocks` are the encoded signatures of the blocks that the
/// receiver has. Returns the length of the blocks.
pub fn ask_for_file(
    w: &mut Vec<u8>,
    ndx: i32,
    head: &SumHead,
    blocks: &[u8],
    append: bool,
    st: &mut NdxState,
    wire: &WireFormat,
) -> (r: usize)
    requires
        ndx > i32::MIN,
    ensures
        final(w)@ == old(w)@ + ask_bytes(ndx, *head, blocks@, append, *old(st), *wire),
        *final(st) == ndx_next(ndx, *old(st), wire.version),
        r == block_length(*head, DEFAULT_BLOCK_LENGTH),
{
    write_ndx(w, ndx, st, wire.version);
    if wire.has_iflags() {
        write_shortint(w, ITEM_TRANSFER);
    }
    write_sum_head(w, head);
    if !append {
        write_bytes(w, blocks);
    }
    assert(w@ =~= old(w)@ + ask_bytes(ndx, *head, blocks@, append, *old(st), *wire));
    block_length_or(head, DEFAULT_BLOCK_LENGTH)
}

/// What the generator tells the receiver about an entry.
#[derive(Debug)]
pub enum GeneratorItem {
    /// The entry was handled without data.
    Handled { entry_idx: usize, kind: HandledKind },
    /// The entry becomes a hard link once all files are in place.
    DeferredHardlink { entry_idx: usize, source_name: Vec<u8> },
    /// The data of the entry was asked for.
    Transfer { entry_idx: usize, blength: usize },
    /// There are no more entries.
    Done,
}

/// The view of a [`GeneratorItem`].
#[verifier::ext_equal]
pub enum GeneratorItemView {
    Handled { entry_idx: usize, kind: HandledKind },
    DeferredHardlink { entry_idx: usize, source_name: Seq<u8> },
    Transfer { entry_idx: usize, blength: usize },
    Done,
}

impl View for GeneratorItem {
    type V = GeneratorItemView;

    open spec fn view(&self) -> GeneratorItemView {
        match *self {
            GeneratorItem::Handled { entry_idx, kind } => GeneratorItemView::Handled {
                entry_idx,
                kind,
            },
            GeneratorItem::DeferredHardlink { entry_idx, source_name } =>
                GeneratorItemView::DeferredHardlink { entry_idx, source_name: source_name@ },
            GeneratorItem::Transfer { entry_idx, blength } => GeneratorItemView::Transfer {
                entry_idx,
                blength,
            },
            GeneratorItem::Done => GeneratorItemView::Done,
        }
    }
}

/// What the receiver is told of a decision about an entry; nothing where the
/// entry is skipped or not decided yet.
pub open spec fn item_of(entry_idx: usize, a: ActionView, blength: usize) -> Option<
    GeneratorItemView,
> {
    match a {
        ActionView::Handled { kind, .. } => Some(GeneratorItemView::Handled { entry_idx, kind }),
        ActionView::DeferredHardlink { source_name } => Some(
            GeneratorItemView::DeferredHardlink { entry_idx, source_name },
        ),
        ActionView::NeedsTransfer { .. } => Some(
            GeneratorItemView::Transfer { entry_idx, blength },
        ),
        _ => None,
    }
}

/// What the receiver is told of a decision about an entry.
pub fn tell_receiver(entry_idx: usize, action: &EntryAction, blength: usize) -> (r: Option<
    GeneratorItem,
>)
    ensures
        match r {
            Some(i) => item_of(entry_idx, action@, blength) == Some(i@),
            None => item_of(entry_idx, action@, blength) is None,
        },
{
    match action {
        EntryAction::Handled { kind, .. } => Some(
            GeneratorItem::Handled { entry_idx, kind: *kind },
        ),
        EntryAction::DeferredHardlink { source_name } => Some(
            GeneratorItem::DeferredHardlink {
                entry_idx,
                source_name: copy_bytes(source_name.as_slice()),
            },
        ),
        EntryAction::NeedsTransfer { .. } => Some(GeneratorItem::Transfer { entry_idx, blength }),
        _ => None,
    }
}

/// The bytes that a decision about an entry sends: a request where the entry
/// needs data, else none.
pub open spec fn step_bytes(
    ndx: i32,
    a: ActionView,
    head: SumHead,
    blocks: Seq<u8>,
    append: bool,
    st: NdxState,
    wire: WireFormat,
) -> Seq<u8> {
    if a is NeedsTransfer {
        ask_bytes(ndx, head, blocks, append, st, wire)
    } else {
        Seq::empty()
    }
}

/// Takes the generator's step for an entry: what is sent to the other side, and
/// what the receiver is told. `head` and `blocks` are the signatures of what the
/// receiver has of the file, where it needs data.
pub fn generate_step(
    entry_idx: usize,
    ndx: i32,
    action: &EntryAction,
    head: &SumHead,
    blocks: &[u8],
    append: bool,
    st: &mut NdxState,
    wire: &WireFormat,
) -> (r: (Vec<u8>, Option<GeneratorItem>))
    requires
        action@ is NeedsTransfer ==> ndx > i32::MIN,
    ensures
        r.0@ == step_bytes(ndx, action@, *head, blocks@, append, *old(st), *wire),
        *final(st) == (if action@ is NeedsTransfer {
            ndx_next(ndx, *old(st), wire.version)
        } else {
            *old(st)
        }),
        ({
            let item = item_of(entry_idx, action@, block_length(*head, DEFAULT_BLOCK_LENGTH));
            match r.1 {
                Some(i) => item == Some(i@),
                None => item is None,
            }
        }),
{
    let mut request: Vec<u8> = Vec::new();
    let mut blength: usize = DEFAULT_BLOCK_LENGTH;
    match action {
        EntryAction::NeedsTransfer { .. } => {
            blength = ask_for_file(&mut request, ndx, head, blocks, append, st, wire);
        },
        _ => {},
    }
    proof {
        let asked = step_bytes(ndx, action@, *head, blocks@, append, *old(st), *wire);
        assert(Seq::<u8>::empty() + asked =~= asked);
    }
    (request, tell_receiver(entry_idx, action, blength))
}

/// The receiver is told to await data exactly where it was asked for.
pub proof fn what_is_asked_is_awaited(
    entry_idx: usize,
    ndx: i32,
    a: ActionView,
    head: SumHead,
    blocks: Seq<u8>,
    append: bool,
    st: NdxState,
    wire: WireFormat,
    blength: usize,
)
    ensures
        step_bytes(ndx, a, head, blocks, append, st, wire).len() > 0 <==> (item_of(
            entry_idx,
            a,
            blength,
        ) matches Some(i) && i is Transfer),
{
    le_bytes_len(head.count as u32 as nat, 4);
}

// ---------------------------------------------------------------------------
// Taking answers
// ---------------------------------------------------------------------------

/// The head of an answer at a position.
pub open spec fn response_at(s: Seq<u8>, p: int, st: NdxState, wire: WireFormat) -> Result<
    (SumHead, int),
    ProtocolErrorView,
> {
    match ndx_at(s, p, st, wire.version) {
        Err(e) => Err(e),
        Ok((_, q)) => {
            let flags = if wire.item_flags() {
                match item_flags_at(s, q) {
                    Err(e) => Err(e),
                    Ok((_, q2)) => Ok(q2),
                }
            } else {
                Ok(q)
            };
            match flags {
                Err(e) => Err(e),
                Ok(q2) => sum_head_at(s, q2),
            }
        },
    }
}

/// What is remembered of indices after an answer.
pub open spec fn after_response(s: Seq<u8>, p: int, st: NdxState, wire: WireFormat) -> NdxState {
    match ndx_at(s, p, st, wire.version) {
        Ok((ndx, _)) => ndx_read_next(s[p], ndx, st, wire.version),
        Err(_) => st,
    }
}

/// Reads the head of an answer. Where that fails nothing is remembered of it.
pub fn read_response(r: &mut WireReader, st: &mut NdxState, wire: &WireFormat) -> (res: Result<
    SumHead,
    ProtocolError,
>)
    requires
        old(r).wf(),
    ensures
        final(r).wf(),
        final(r).buf@ == old(r).buf@,
        match response_at(old(r).buf@, old(r).pos as int, *old(st), *wire) {
            Ok((h, q)) => {
                &&& res == Ok::<SumHead, ProtocolError>(h)
                &&& final(r).pos == q
                &&& *final(st) == after_response(old(r).buf@, old(r).pos as int, *old(st), *wire)
            },
            Err(e) => res is Err && res->Err_0@ == e && *final(st) == *old(st),
        },
{
    let mut next = *st;
    match read_ndx(r, &mut next, wire.version) {
        Err(e) => {
            return Err(e);
        },
        Ok(_) => {},
    }
    if wire.has_iflags() {
        match read_item_flags(r) {
            Err(e) => {
                return Err(e);
            },
            Ok(_) => {},
        }
    }
    match read_sum_head(r) {
        Err(e) => Err(e),
        Ok(h) => {
            *st = next;
            Ok(h)
        },
    }
}

/// How the data of a file is taken.
#[derive(Debug, Clone, Copy, PartialEq, Eq, Structural)]
pub enum ReceiveMode {
    /// Whole, then written.
    Buffered,
    /// Decompressed and written piece by piece.
    StreamCompressed,
    /// Written piece by piece.
    Stream,
}

/// How the data of a file is taken: whole where it has to be, else piece by
/// piece.
pub fn receive_mode(buffered: bool, compressed: bool) -> (r: ReceiveMode)
    ensures
        r == (if buffered {
            ReceiveMode::Buffered
        } else if compressed {
            ReceiveMode::StreamCompressed
        } else {
            ReceiveMode::Stream
        }),
{
    if buffered {
        ReceiveMode::Buffered
    } else if compressed {
        ReceiveMode::StreamCompressed
    } else {
        ReceiveMode::Stream
    }
}

/// What an entry adds to the statistics that was handled without data.
pub open spec fn handled_counts(kind: HandledKind, e: EntryView) -> TransferStats {
    let zero = TransferStats::zero();
    match kind {
        HandledKind::Directory => TransferStats { directories_created: 1, ..zero },
        HandledKind::Symlink => TransferStats { symlinks: 1, ..zero },
        HandledKind::LinkDest | HandledKind::CopyDest => TransferStats {
            files_transferred: 1,
            matched_data: e.len as u64,
            ..zero
        },
        HandledKind::DryRun => TransferStats {
            files_transferred: 1,
            total_size: e.len as u64,
            ..zero
        },
    }
}

/// The events of an entry that was handled without data.
pub open spec fn handled_events(index: i32, kind: HandledKind, e: EntryView) -> Seq<EventView> {
    match kind {
        HandledKind::Directory => Seq::empty(),
        HandledKind::Symlink => seq![sent_event(index, e, 0, 0)],
        HandledKind::LinkDest | HandledKind::CopyDest => seq![
            sent_event(index, e, 0, e.len as u64),
        ],
        HandledKind::DryRun => seq![sent_event(index, e, e.len as u64, 0)],
    }
}

/// What a file adds to the statistics that was received.
pub open spec fn received_counts(e: EntryView, literal: u64) -> TransferStats {
    TransferStats {
        files_transferred: 1,
        total_size: e.len as u64,
        literal_data: literal,
        bytes_received: literal,
        ..TransferStats::zero()
    }
}

/// The state of a receiver.
#[verifier::ext_equal]
pub struct ReceiverView {
    /// What was read of indices.
    pub answered: NdxState,
    /// Entries that become hard links, with the names that they link to.
    pub deferred: Seq<(usize, Seq<u8>)>,
    pub stats: TransferStats,
    pub tracker: TrackerView,
}

impl ReceiverView {
    /// After an item.
    pub open spec fn after(self, item: GeneratorItemView, entries: Seq<EntryView>) -> ReceiverView {
        match item {
            GeneratorItemView::Handled { entry_idx, kind } => {
                let e = entries[entry_idx as int];
                ReceiverView {
                    stats: self.stats.plus(handled_counts(kind, e)),
                    tracker: after_events(
                        self.tracker,
                        handled_events(entry_idx as i32, kind, e),
                    ),
                    ..self
                }
            },
            GeneratorItemView::DeferredHardlink { entry_idx, source_name } => ReceiverView {
                deferred: self.deferred.push((entry_idx, source_name)),
                ..self
            },
            GeneratorItemView::Transfer { entry_idx, .. } => {
                let e = entries[entry_idx as int];
                ReceiverView {
                    tracker: after_events(
                        self.tracker,
                        seq![
                            EventView::FileStart {
                                index: entry_idx as i32,
                                name: e.name,
                                size: e.len,
                            },
                        ],
                    ),
                    ..self
                }
            },
            GeneratorItemView::Done => self,
        }
    }

    /// After a file was received.
    pub open spec fn received(self, entry_idx: usize, e: EntryView, literal: u64) -> ReceiverView {
        ReceiverView {
            stats: self.stats.plus(received_counts(e, literal)),
            tracker: after_events(
                self.tracker,
                seq![sent_event(entry_idx as i32, e, literal, 0)],
            ),
            ..self
        }
    }
}

/// The item is about one of the entries.
pub open spec fn item_fits(item: GeneratorItemView, n: nat) -> bool {
    match item {
        GeneratorItemView::Handled { entry_idx, .. } => entry_idx < n,
        GeneratorItemView::DeferredHardlink { entry_idx, .. } => entry_idx < n,
        GeneratorItemView::Transfer { entry_idx, .. } => entry_idx < n,
        GeneratorItemView::Done => true,
    }
}

/// The views of deferred entries.
pub open spec fn waiting_views(s: Seq<(usize, Vec<u8>)>) -> Seq<(usize, Seq<u8>)> {
    Seq::new(s.len(), |i: int| (s[i].0, s[i].1@))
}

/// The receiver's side of a transfer.
pub struct ReceiverLoop<'a> {
    entries: &'a [FileEntry],
    wire: WireFormat,
    answered: NdxState,
    deferred: Vec<(usize, Vec<u8>)>,
    stats: TransferStats,
    progress: ProgressTracker,
}

impl<'a> View for ReceiverLoop<'a> {
    type V = ReceiverView;

    closed spec fn view(&self) -> ReceiverView {
        ReceiverView {
            answered: self.answered,
            deferred: waiting_views(self.deferred@),
            stats: self.stats,
            tracker: self.progress@,
        }
    }
}

impl<'a> ReceiverLoop<'a> {
    /// The entries of the file list.
    pub closed spec fn list(&self) -> Seq<EntryView> {
        entry_views(self.entries@)
    }

    /// The wire format.
    pub closed spec fn format(&self) -> WireFormat {
        self.wire
    }

    /// Entries can be numbered, and those that wait are among them.
    pub open spec fn wf(&self) -> bool {
        &&& self.list().len() <= i32::MAX
        &&& forall|i: int|
            0 <= i < self@.deferred.len() ==> (#[trigger] self@.deferred[i]).0 < self.list().len()
    }

    /// A receiver at its start.
    pub fn new(
        entries: &'a [FileEntry],
        wire: WireFormat,
        stats: TransferStats,
        progress: ProgressTracker,
    ) -> (r: Self)
        requires
            entries.len() <= i32::MAX,
        ensures
            r.wf(),
            r.list() == entry_views(entries@),
            r.format() == wire,
            r@ == (ReceiverView {
                answered: NdxState::initial(),
                deferred: Seq::empty(),
                stats,
                tracker: progress@,
            }),
    {
        let r = ReceiverLoop {
            entries,
            wire,
            answered: NdxState::default(),
            deferred: Vec::new(),
            stats,
            progress,
        };
        assert(r@.deferred =~= Seq::<(usize, Seq<u8>)>::empty());
        r
    }

    fn count_handled(kind: HandledKind, entry: &FileEntry) -> (r: TransferStats)
        ensures
            r == handled_counts(kind, entry@),
    {
        let mut d = TransferStats::new();
        match kind {
            HandledKind::Directory => {
                d.directories_created = 1;
            },
            HandledKind::Symlink => {
                d.symlinks = 1;
            },
            HandledKind::LinkDest | HandledKind::CopyDest => {
                d.files_transferred = 1;
                d.matched_data = entry.len as u64;
            },
            HandledKind::DryRun => {
                d.files_transferred = 1;
                d.total_size = entry.len as u64;
            },
        }
        d
    }

    fn tell_handled(index: i32, kind: HandledKind, entry: &FileEntry) -> (r: Vec<ProgressEvent>)
        ensures
            event_views(r@) == handled_events(index, kind, entry@),
            r@.len() <= 1,
    {
        let mut events: Vec<ProgressEvent> = Vec::new();
        assert(event_views(events@) =~= Seq::empty());
        let len: u64 = entry.len as u64;
        match kind {
            HandledKind::Directory => {},
            HandledKind::Symlink => {
                push_event(&mut events, complete(index, entry, 0, 0));
            },
            HandledKind::LinkDest | HandledKind::CopyDest => {
                push_event(&mut events, complete(index, entry, 0, len));
            },
            HandledKind::DryRun => {
                push_event(&mut events, complete(index, entry, len, 0));
            },
        }
        assert(event_views(events@) =~= handled_events(index, kind, entry@));
        events
    }

    /// Takes what the generator tells about an entry.
    pub fn take(&mut self, item: GeneratorItem)
        requires
            old(self).wf(),
            item_fits(item@, old(self).list().len()),
            old(self)@.tracker.files_done < u64::MAX,
            item@ is Handled ==> old(self)@.stats.fits(
                handled_counts(
                    item@->kind,
                    old(self).list()[item@->Handled_entry_idx as int],
                ),
            ),
        ensures
            final(self).wf(),
            final(self).list() == old(self).list(),
            final(self).format() == old(self).format(),
            final(self)@ == old(self)@.after(item@, old(self).list()),
    {
        let ghost v = self@;
        let ghost iv = item@;
        match item {
            GeneratorItem::Handled { entry_idx, kind } => {
                let e = &self.entries[entry_idx];
                let d = Self::count_handled(kind, e);
                let events = Self::tell_handled(entry_idx as i32, kind, e);
                self.stats.record(d);
                self.progress.emit_all(events);
            },
            GeneratorItem::DeferredHardlink { entry_idx, source_name } => {
                let ghost had = waiting_views(self.deferred@);
                let ghost sv = source_name@;
                self.deferred.push((entry_idx, source_name));
                assert(waiting_views(self.deferred@) =~= had.push((entry_idx, sv)));
            },
            GeneratorItem::Transfer { entry_idx, .. } => {
                let e = &self.entries[entry_idx];
                let mut events: Vec<ProgressEvent> = Vec::new();
                assert(event_views(events@) =~= Seq::empty());
                push_event(
                    &mut events,
                    ProgressEvent::FileStart {
                        index: entry_idx as i32,
                        name: copy_bytes(e.name.as_slice()),
                        size: e.len,
                    },
                );
                assert(event_views(events@) =~= seq![
                    EventView::FileStart {
                        index: entry_idx as i32,
                        name: e@.name,
                        size: e@.len,
                    },
                ]);
                self.progress.emit_all(events);
            },
            GeneratorItem::Done => {},
        }
        assert(self.list() == old(self).list());
        assert(self@ =~= v.after(iv, self.list()));
    }

    /// Reads the head of the answer about a file. `blength` is the length of
    /// the blocks where the answer does not tell one. Returns the length of
    /// the blocks that the data refers to.
    pub fn answer(&mut self, r: &mut WireReader, blength: usize) -> (res: Result<
        usize,
        ProtocolError,
    >)
        requires
            old(self).wf(),
            old(r).wf(),
        ensures
            final(self).wf(),
            final(self).list() == old(self).list(),
            final(self).format() == old(self).format(),
            final(r).wf(),
            final(r).buf@ == old(r).buf@,
            ({
                let s = old(r).buf@;
                let p = old(r).pos as int;
                let v = old(self)@;
                let w = old(self).format();
                match response_at(s, p, v.answered, w) {
                    Ok((h, q)) => {
                        &&& res == Ok::<usize, ProtocolError>(block_length(h, blength))
                        &&& final(r).pos == q
                        &&& final(self)@ == (ReceiverView {
                            answered: after_response(s, p, v.answered, w),
                            ..v
                        })
                    },
                    Err(e) => res is Err && res->Err_0@ == e && final(self)@ == v,
                }
            }),
    {
        let mut st = self.answered;
        let res = read_response(r, &mut st, &self.wire);
        self.answered = st;
        assert(self.list() == old(self).list());
        match res {
            Err(e) => Err(e),
            Ok(h) => Ok(block_length_or(&h, blength)),
        }
    }

    /// Takes note of a file that was received.
    pub fn file_received(&mut self, entry_idx: usize, literal: u64)
        requires
            old(self).wf(),
            entry_idx < old(self).list().len(),
            old(self)@.tracker.files_done < u64::MAX,
            old(self)@.stats.fits(
                received_counts(old(self).list()[entry_idx as int], literal),
            ),
        ensures
            final(self).wf(),
            final(self).list() == old(self).list(),
            final(self).format() == old(self).format(),
            final(self)@ == old(self)@.received(
                entry_idx,
                old(self).list()[entry_idx as int],
                literal,
            ),
    {
        let ghost v = self@;
        let e = &self.entries[entry_idx];
        let mut d = TransferStats::new();
        d.files_transferred = 1;
        d.total_size = e.len as u64;
        d.literal_data = literal;
        d.bytes_received = literal;
        let mut events: Vec<ProgressEvent> = Vec::new();
        assert(event_views(events@) =~= Seq::empty());
        push_event(&mut events, complete(entry_idx as i32, e, literal, 0));
        assert(event_views(events@) =~= seq![sent_event(entry_idx as i32, e@, literal, 0)]);
        self.stats.record(d);
        self.progress.emit_all(events);
        assert(self.list() == old(self).list());
        assert(self@ =~= v.received(entry_idx, e@, literal));
    }

    /// The entries that become hard links: their names, and the names that
    /// they link to.
    pub fn deferred(&self) -> (r: Vec<(Vec<u8>, Vec<u8>)>)
        requires
            self.wf(),
        ensures
            deferred_views(r@) == Seq::new(
                self@.deferred.len(),
                |i: int| (self.list()[self@.deferred[i].0 as int].name, self@.deferred[i].1),
            ),
    {
        let mut out: Vec<(Vec<u8>, Vec<u8>)> = Vec::new();
        let mut i: usize = 0;
        while i < self.deferred.len()
            invariant
                i <= self.deferred.len(),
                out.len() == i,
                self.wf(),
                forall|j: int|
                    0 <= j < i ==> (#[trigger] out@[j]).0@ == self.list()[self@.deferred[j].0 as int].name
                        && out@[j].1@ == self@.deferred[j].1,
            decreases self.deferred.len() - i,
        {
            let at: usize = self.deferred[i].0;
            assert(self@.deferred[i as int].0 == at);
            let name = copy_bytes(self.entries[at].name.as_slice());
            let source = copy_bytes(self.deferred[i].1.as_slice());
            out.push((name, source));
            i = i + 1;
        }
        assert(deferred_views(out@) =~= Seq::new(
            self@.deferred.len(),
            |i: int| (self.list()[self@.deferred[i].0 as int].name, self@.deferred[i].1),
        ));
        out
    }

    /// Takes note of the hard links whose steps succeeded. In a dry run a link
    /// has no step that could fail.
    pub fn links_made(&mut self, made: &[bool])
        requires
            old(self).wf(),
            old(self)@.stats.files_transferred + made.len() <= u64::MAX,
        ensures
            final(self).wf(),
            final(self).list() == old(self).list(),
            final(self).format() == old(self).format(),
            final(self)@ == (ReceiverView {
                stats: TransferStats {
                    files_transferred: (old(self)@.stats.files_transferred + links_created(
                        made@,
                    )) as u64,
                    ..old(self)@.stats
                },
                ..old(self)@
            }),
    {
        let ghost v = self@;
        let count: u64 = count_links(made);
        self.stats.files_transferred = self.stats.files_transferred + count;
        assert(self.list() == old(self).list());
        assert(self@ =~= (ReceiverView {
            stats: TransferStats {
                files_transferred: (v.stats.files_transferred + count) as u64,
                ..v.stats
            },
            ..v
        }));
    }

    /// What was done so far.
    pub fn stats(&self) -> (r: TransferStats)
        ensures
            r == self@.stats,
    {
        self.stats
    }

    /// Hands the tracker on.
    pub fn into_progress(self) -> (r: ProgressTracker)
        ensures
            r@ == self@.tracker,
    {
        self.progress
    }

    /// The events that nobody has seen yet.
    pub fn take_events(&mut self) -> (r: Vec<ProgressEvent>)
        requires
            old(self).wf(),
        ensures
            final(self).wf(),
            final(self).list() == old(self).list(),
            final(self).format() == old(self).format(),
            event_views(r@) == old(self)@.tracker.pending,
            final(self)@ == (ReceiverView {
                tracker: TrackerView { pending: Seq::empty(), ..old(self)@.tracker },
                ..old(self)@
            }),
    {
        let ghost v = self@;
        let events = self.progress.take_events();
        assert(self.list() == old(self).list());
        assert(self@ =~= (ReceiverView {
            tracker: TrackerView { pending: Seq::empty(), ..v.tracker },
            ..v
        }));
        events
    }
}

fn complete(index: i32, entry: &FileEntry, literal: u64, matched: u64) -> (r: ProgressEvent)
    ensures
        r@ == sent_event(index, entry@, literal, matched),
{
    ProgressEvent::FileComplete {
        index,
        name: copy_bytes(entry.name.as_slice()),
        literal_bytes: literal,
        matched_bytes: matched,
    }
}

// ---------------------------------------------------------------------------
// What is asked is understood
// ---------------------------------------------------------------------------

/// Flags that announce nothing are read back.
proof fn plain_flags_read_back(s: Seq<u8>, p: int, flags: u16)
    requires
        0 <= p,
        flags & ITEM_BASIS_TYPE_FOLLOWS == 0,
        flags & ITEM_XNAME_FOLLOWS == 0,
        holds_at(s, p, le_bytes(flags as nat, 2)),
    ensures
        item_flags_at(s, p) == Ok::<(u16, int), ProtocolErrorView>((flags, p + 2)),
{
    let b = le_bytes(flags as nat, 2);
    le_bytes_len(flags as nat, 2);
    reveal_with_fuel(crate::protocol::wire::byte_range, 3);
    le_read_back(flags as nat, 2);
    assert(s.subrange(p, p + 2) =~= b);
}

/// What the receiver asks for, the sender understands: the file's index, and
/// that its data is wanted. Behind that stand the signatures.
pub proof fn request_read_back(
    s: Seq<u8>,
    p: int,
    ndx: i32,
    head: SumHead,
    blocks: Seq<u8>,
    append: bool,
    st: NdxState,
    wire: WireFormat,
)
    requires
        0 <= p,
        0 <= ndx,
        holds_at(s, p, ask_bytes(ndx, head, blocks, append, st, wire)),
    ensures
        ({
            let r = request_at(s, p, st, wire);
            &&& r is Ok
            &&& r->Ok_0.0 == (Request::File {
                ndx,
                flags: if wire.item_flags() {
                    ITEM_TRANSFER
                } else {
                    0
                },
            })
            &&& sum_head_at(s, r->Ok_0.1) == Ok::<(SumHead, int), ProtocolErrorView>(
                (head, r->Ok_0.1 + sum_head_bytes(head).len()),
            )
            &&& !append ==> r->Ok_0.1 + sum_head_bytes(head).len() + blocks.len() == p + ask_bytes(
                ndx,
                head,
                blocks,
                append,
                st,
                wire,
            ).len()
        }),
{
    let a = ndx_bytes(ndx, st, wire.version);
    let f = if wire.item_flags() {
        le_bytes(ITEM_TRANSFER as nat, 2)
    } else {
        Seq::empty()
    };
    let h = sum_head_bytes(head);
    let b = if append {
        Seq::empty()
    } else {
        blocks
    };
    holds_split(s, p, a + f + h, b);
    holds_split(s, p, a + f, h);
    holds_split(s, p, a, f);
    ndx_read_back(s, p, ndx, st, wire.version);
    if wire.item_flags() {
        le_bytes_len(ITEM_TRANSFER as nat, 2);
        assert(0x8000u16 & 0x0800u16 == 0 && 0x8000u16 & 0x1000u16 == 0) by (bit_vector);
        plain_flags_read_back(s, p + a.len(), ITEM_TRANSFER);
    }
    sum_head_read_back(s, p + a.len() + f.len(), head);
}

/// The sender's announcement of a file's data is read by the receiver up to its
/// end, and both agree on the blocks.
pub proof fn response_read_back(
    s: Seq<u8>,
    p: int,
    ndx: i32,
    flags: u16,
    head: SumHead,
    st: NdxState,
    wire: WireFormat,
)
    requires
        0 <= p,
        ndx > i32::MIN,
        flags & ITEM_BASIS_TYPE_FOLLOWS == 0,
        flags & ITEM_XNAME_FOLLOWS == 0,
        holds_at(s, p, announce_bytes(ndx, flags, head, st, wire)),
    ensures
        response_at(s, p, st, wire) == Ok::<(SumHead, int), ProtocolErrorView>(
            (answer_head(head), p + announce_bytes(ndx, flags, head, st, wire).len()),
        ),
        after_response(s, p, st, wire) == ndx_next(ndx, st, wire.version),
{
    let a = ndx_bytes(ndx, st, wire.version);
    let f = if wire.item_flags() {
        le_bytes(flags as nat, 2)
    } else {
        Seq::empty()
    };
    let h = sum_head_bytes(answer_head(head));
    holds_split(s, p, a + f, h);
    holds_split(s, p, a, f);
    ndx_read_back(s, p, ndx, st, wire.version);
    if wire.item_flags() {
        le_bytes_len(flags as nat, 2);
        plain_flags_read_back(s, p + a.len(), flags);
    }
    sum_head_read_back(s, p + a.len() + f.len(), answer_head(head));
}

} // verus!

//! Progress tracking for file transfers.

use vstd::prelude::*;

verus! {

/// What differs between a source and its destination.
#[derive(Debug, Clone, Copy, PartialEq, Eq, Structural)]
pub struct ItemizedChanges {
    /// `c` for created, `>` for changed, `.` for unchanged.
    pub update_type: char,
    /// `d`, `L`, `D` or `f`.
    pub file_type: char,
    pub checksum_changed: bool,
    pub size_changed: bool,
    pub time_changed: bool,
    pub perms_changed: bool,
    pub owner_changed: bool,
    pub group_changed: bool,
}

/// Progress event emitted during a transfer.
#[derive(Debug, Clone)]
pub enum ProgressEvent {
    /// Starting to process a file.
    FileStart { index: i32, name: Vec<u8>, size: i64 },
    /// Progress on the current file.
    FileProgress { index: i32, bytes_transferred: u64, total_size: i64 },
    /// Finished transferring a file.
    FileComplete { index: i32, name: Vec<u8>, literal_bytes: u64, matched_bytes: u64 },
    /// A file was skipped (already up to date).
    FileSkipped { index: i32, name: Vec<u8> },
    /// What is about to change in a file.
    FileItemized { index: i32, name: Vec<u8>, changes: ItemizedChanges },
    /// A file was deleted from the receiver.
    FileDeleted { name: Vec<u8> },
    /// Overall transfer progress.
    OverallProgress {
        files_done: u64,
        files_total: u64,
        bytes_transferred: u64,
        bytes_total: u64,
    },
}

/// The view of a [`ProgressEvent`].
#[verifier::ext_equal]
pub enum EventView {
    FileStart { index: i32, name: Seq<u8>, size: i64 },
    FileProgress { index: i32, bytes_transferred: u64, total_size: i64 },
    FileComplete { index: i32, name: Seq<u8>, literal_bytes: u64, matched_bytes: u64 },
    FileSkipped { index: i32, name: Seq<u8> },
    FileItemized { index: i32, name: Seq<u8>, changes: ItemizedChanges },
    FileDeleted { name: Seq<u8> },
    OverallProgress {
        files_done: u64,
        files_total: u64,
        bytes_transferred: u64,
        bytes_total: u64,
    },
}

impl View for ProgressEvent {
    type V = EventView;

    open spec fn view(&self) -> EventView {
        match *self {
            ProgressEvent::FileStart { index, name, size } => EventView::FileStart {
                index,
                name: name@,
                size,
            },
            ProgressEvent::FileProgress { index, bytes_transferred, total_size } =>
                EventView::FileProgress { index, bytes_transferred, total_size },
            ProgressEvent::FileComplete { index, name, literal_bytes, matched_bytes } =>
                EventView::FileComplete { index, name: name@, literal_bytes, matched_bytes },
            ProgressEvent::FileSkipped { index, name } => EventView::FileSkipped {
                index,
                name: name@,
            },
            ProgressEvent::FileItemized { index, name, changes } => EventView::FileItemized {
                index,
                name: name@,
                changes,
            },
            ProgressEvent::FileDeleted { name } => EventView::FileDeleted { name: name@ },
            ProgressEvent::OverallProgress {
                files_done,
                files_total,
                bytes_transferred,
                bytes_total,
            } => EventView::OverallProgress {
                files_done,
                files_total,
                bytes_transferred,
                bytes_total,
            },
        }
    }
}

/// The views of events.
pub open spec fn event_views(s: Seq<ProgressEvent>) -> Seq<EventView> {
    Seq::new(s.len(), |i: int| s[i]@)
}

/// Appends an event.
pub fn push_event(events: &mut Vec<ProgressEvent>, event: ProgressEvent)
    ensures
        event_views(final(events)@) == event_views(old(events)@).push(event@),
{
    let ghost had = event_views(events@);
    let ghost v = event@;
    events.push(event);
    assert(event_views(events@) =~= had.push(v));
}

/// Progress tracker: counts what was done and, where someone listens, keeps the
/// events for them in the order in which they came.
#[derive(Debug)]
pub struct ProgressTracker {
    listened: bool,
    pending: Vec<ProgressEvent>,
    files_done: u64,
    files_total: u64,
    current: Option<i32>,
    bytes_before: u64,
    bytes_current: u64,
    bytes_total: u64,
}

/// The view of a [`ProgressTracker`].
#[verifier::ext_equal]
pub struct TrackerView {
    /// Whether someone listens.
    pub listened: bool,
    /// Events that were not handed over yet.
    pub pending: Seq<EventView>,
    pub files_done: u64,
    pub files_total: u64,
    /// Index of the file in progress.
    pub current: Option<i32>,
    /// Bytes of the files before it.
    pub bytes_before: u64,
    /// Bytes of the file in progress.
    pub bytes_current: u64,
    pub bytes_total: u64,
}

impl View for ProgressTracker {
    type V = TrackerView;

    closed spec fn view(&self) -> TrackerView {
        TrackerView {
            listened: self.listened,
            pending: event_views(self.pending@),
            files_done: self.files_done,
            files_total: self.files_total,
            current: self.current,
            bytes_before: self.bytes_before,
            bytes_current: self.bytes_current,
            bytes_total: self.bytes_total,
        }
    }
}

/// A tracker at the start.
pub open spec fn fresh_tracker(listened: bool) -> TrackerView {
    TrackerView {
        listened,
        pending: Seq::empty(),
        files_done: 0,
        files_total: 0,
        current: None,
        bytes_before: 0,
        bytes_current: 0,
        bytes_total: 0,
    }
}

/// An event that ends the work on a file.
pub open spec fn ends_file(e: EventView) -> bool {
    e is FileComplete || e is FileSkipped
}

/// A sum, at most the greatest number.
pub open spec fn capped_sum(a: u64, b: u64) -> u64 {
    if a + b > u64::MAX {
        u64::MAX
    } else {
        (a + b) as u64
    }
}

/// Total bytes transferred so far: those of the files before the one in
/// progress, and its own.
pub open spec fn bytes_so_far(t: TrackerView) -> u64 {
    capped_sum(t.bytes_before, t.bytes_current)
}

/// The tracker with an event counted: progress on another file than before
/// takes over the bytes of that file.
pub open spec fn counted(t: TrackerView, e: EventView) -> TrackerView {
    match e {
        EventView::FileProgress { index, bytes_transferred, .. } => TrackerView {
            current: Some(index),
            bytes_before: if t.current == Some(index) {
                t.bytes_before
            } else {
                bytes_so_far(t)
            },
            bytes_current: bytes_transferred,
            ..t
        },
        _ => TrackerView {
            files_done: if ends_file(e) {
                (t.files_done + 1) as u64
            } else {
                t.files_done
            },
            ..t
        },
    }
}

/// The tracker after an event.
pub open spec fn after_event(t: TrackerView, e: EventView) -> TrackerView {
    TrackerView {
        pending: if t.listened {
            t.pending.push(e)
        } else {
            t.pending
        },
        ..counted(t, e)
    }
}

/// Progress on the same file replaces its bytes in the total; progress on
/// another file adds to it.
pub proof fn progress_adds_up(t: TrackerView, index: i32, bytes: u64, size: i64)
    requires
        t.bytes_before + t.bytes_current + bytes <= u64::MAX,
    ensures
        bytes_so_far(
            after_event(
                t,
                EventView::FileProgress { index, bytes_transferred: bytes, total_size: size },
            ),
        ) == if t.current == Some(index) {
            bytes_so_far(t) - t.bytes_current + bytes
        } else {
            bytes_so_far(t) + bytes
        },
{
}

/// The tracker after events.
pub open spec fn after_events(t: TrackerView, events: Seq<EventView>) -> TrackerView
    decreases events.len(),
{
    if events.len() == 0 {
        t
    } else {
        after_event(after_events(t, events.drop_last()), events.last())
    }
}

/// The events are kept in order where someone listens.
pub proof fn events_in_order(t: TrackerView, events: Seq<EventView>)
    ensures
        after_events(t, events).pending == (if t.listened {
            t.pending + events
        } else {
            t.pending
        }),
        after_events(t, events).listened == t.listened,
        after_events(t, events).files_total == t.files_total,
        after_events(t, events).bytes_total == t.bytes_total,
    decreases events.len(),
{
    if events.len() == 0 {
        assert(t.pending + events =~= t.pending);
    } else {
        events_in_order(t, events.drop_last());
        assert(t.pending + events =~= (t.pending + events.drop_last()).push(events.last()));
    }
}

/// The event that tells the overall progress.
pub open spec fn overall(t: TrackerView) -> EventView {
    EventView::OverallProgress {
        files_done: t.files_done,
        files_total: t.files_total,
        bytes_transferred: bytes_so_far(t),
        bytes_total: t.bytes_total,
    }
}

impl Default for ProgressTracker {
    fn default() -> (r: Self)
        ensures
            r@ == fresh_tracker(false),
    {
        Self::new()
    }
}

impl ProgressTracker {
    fn start(listened: bool) -> (r: ProgressTracker)
        ensures
            r@ == fresh_tracker(listened),
    {
        let r = ProgressTracker {
            listened,
            pending: Vec::new(),
            files_done: 0,
            files_total: 0,
            current: None,
            bytes_before: 0,
            bytes_current: 0,
            bytes_total: 0,
        };
        assert(r@.pending =~= Seq::<EventView>::empty());
        r
    }

    /// A tracker to which nobody listens.
    pub fn new() -> (r: ProgressTracker)
        ensures
            r@ == fresh_tracker(false),
    {
        Self::start(false)
    }

    /// A tracker whose events are kept for a callback.
    pub fn with_callback() -> (r: ProgressTracker)
        ensures
            r@ == fresh_tracker(true),
    {
        Self::start(true)
    }

    /// Set the total file count and byte count for overall progress.
    pub fn set_totals(&mut self, files: u64, bytes: u64)
        ensures
            final(self)@ == (TrackerView { files_total: files, bytes_total: bytes, ..old(self)@ }),
    {
        self.files_total = files;
        self.bytes_total = bytes;
    }

    fn so_far(&self) -> (r: u64)
        ensures
            r == bytes_so_far(self@),
    {
        self.bytes_before.saturating_add(self.bytes_current)
    }

    fn count(&mut self, event: &ProgressEvent)
        requires
            ends_file(event@) ==> old(self)@.files_done < u64::MAX,
        ensures
            final(self)@ == counted(old(self)@, event@),
            final(self).pending == old(self).pending,
    {
        match event {
            ProgressEvent::FileComplete { .. } => {
                self.files_done = self.files_done + 1;
            },
            ProgressEvent::FileSkipped { .. } => {
                self.files_done = self.files_done + 1;
            },
            ProgressEvent::FileProgress { index, bytes_transferred, .. } => {
                let same = match self.current {
                    Some(i) => i == *index,
                    None => false,
                };
                if !same {
                    self.bytes_before = self.so_far();
                    self.current = Some(*index);
                }
                self.bytes_current = *bytes_transferred;
            },
            _ => {},
        }
    }

    /// Emit a progress event.
    pub fn emit(&mut self, event: ProgressEvent)
        requires
            ends_file(event@) ==> old(self)@.files_done < u64::MAX,
        ensures
            final(self)@ == after_event(old(self)@, event@),
    {
        self.count(&event);
        if self.listened {
            let ghost had = event_views(self.pending@);
            let ghost v = event@;
            self.pending.push(event);
            assert(event_views(self.pending@) =~= had.push(v));
        }
        assert(self@ == after_event(old(self)@, event@));
    }

    /// Emits events in order.
    pub fn emit_all(&mut self, events: Vec<ProgressEvent>)
        requires
            old(self)@.files_done + events.len() <= u64::MAX,
        ensures
            final(self)@ == after_events(old(self)@, event_views(events@)),
    {
        let ghost all = event_views(events@);
        let ghost t = self@;
        let mut i: usize = 0;
        assert(all.take(0) =~= Seq::empty());
        while i < events.len()
            invariant
                i <= events.len(),
                all == event_views(events@),
                t == old(self)@,
                t.files_done + events.len() <= u64::MAX,
                t.files_done <= self.files_done <= t.files_done + i,
                self.pending == old(self).pending,
                self@ == (TrackerView {
                    pending: t.pending,
                    ..after_events(t, all.take(i as int))
                }),
            decreases events.len() - i,
        {
            proof {
                assert(all.take(i + 1).drop_last() =~= all.take(i as int));
                assert(all.take(i + 1).last() == events[i as int]@);
            }
            self.count(&events[i]);
            i = i + 1;
        }
        proof {
            assert(all.take(i as int) =~= all);
            events_in_order(t, all);
        }
        if self.listened {
            let ghost had = event_views(self.pending@);
            let mut more = events;
            self.pending.append(&mut more);
            assert(event_views(self.pending@) =~= had + all);
        }
        assert(self@ =~= after_events(t, all));
    }

    /// Emit an overall progress event.
    pub fn emit_overall(&mut self)
        ensures
            final(self)@ == after_event(old(self)@, overall(old(self)@)),
    {
        let event = ProgressEvent::OverallProgress {
            files_done: self.files_done,
            files_total: self.files_total,
            bytes_transferred: self.so_far(),
            bytes_total: self.bytes_total,
        };
        self.emit(event);
    }

    /// Hands over the events that nobody has seen yet.
    pub fn take_events(&mut self) -> (r: Vec<ProgressEvent>)
        ensures
            event_views(r@) == old(self)@.pending,
            final(self)@ == (TrackerView { pending: Seq::empty(), ..old(self)@ }),
    {
        let mut out: Vec<ProgressEvent> = Vec::new();
        std::mem::swap(&mut out, &mut self.pending);
        assert(event_views(self.pending@) =~= Seq::<EventView>::empty());
        out
    }

    /// Number of files completed.
    pub fn files_done(&self) -> (r: u64)
        ensures
            r == self@.files_done,
    {
        self.files_done
    }
}

} // verus!

//! What progress and statistics say.

use vstd::prelude::*;

use crate::engine::progress::{
    after_event, after_events, fresh_tracker, overall, EventView, TrackerView,
};
use crate::stats::TransferStats;

verus! {

/// Every event is handed on, behind the earlier ones, where somebody listens, and
/// none where nobody does.
pub proof fn events_are_handed_on(t: TrackerView, e: EventView)
    ensures
        t.listened ==> after_event(t, e).pending == t.pending.push(e),
        !t.listened ==> after_event(t, e).pending == t.pending,
        after_event(t, e).listened == t.listened,
        after_event(t, e).files_total == t.files_total,
        after_event(t, e).bytes_total == t.bytes_total,
{
}

/// A file is done when it is complete or skipped, and then once.
pub proof fn done_files_are_counted(t: TrackerView, e: EventView)
    requires
        t.files_done < u64::MAX,
    ensures
        e is FileComplete || e is FileSkipped ==> after_event(t, e).files_done == t.files_done + 1,
        !(e is FileComplete || e is FileSkipped) ==> after_event(t, e).files_done == t.files_done,
{
}

/// Overall progress tells the tracker's own numbers, and the bytes of all files:
/// those of earlier files and those of the current one.
pub proof fn overall_tells_all_bytes(t: TrackerView)
    requires
        t.bytes_before + t.bytes_current <= u64::MAX,
    ensures
        overall(t) == (EventView::OverallProgress {
            files_done: t.files_done,
            files_total: t.files_total,
            bytes_transferred: (t.bytes_before + t.bytes_current) as u64,
            bytes_total: t.bytes_total,
        }),
{
}

/// Progress of the current file replaces what was known of it; progress of
/// another one adds to what was there. Other events change no bytes.
pub proof fn bytes_go_by_file(t: TrackerView, index: i32, n: u64, size: u64, e: EventView)
    requires
        t.bytes_before + t.bytes_current <= u64::MAX,
    ensures
        ({
            let u = after_event(
                t,
                EventView::FileProgress { index, bytes_transferred: n, total_size: size as i64 },
            );
            &&& u.bytes_current == n
            &&& u.current == Some(index)
            &&& t.current == Some(index) ==> u.bytes_before == t.bytes_before
            &&& t.current != Some(index) ==> u.bytes_before == t.bytes_before + t.bytes_current
            &&& u.files_done == t.files_done
        }),
        !(e is FileProgress) ==> after_event(t, e).bytes_before == t.bytes_before && after_event(
            t,
            e,
        ).bytes_current == t.bytes_current && after_event(t, e).current == t.current,
{
}

/// A new tracker has counted nothing.
pub proof fn new_tracker_is_empty(listened: bool)
    ensures
        ({
            let t = fresh_tracker(listened);
            &&& t.listened == listened
            &&& t.pending.len() == 0 && t.files_done == 0 && t.files_total == 0
            &&& t.current is None && t.bytes_before == 0 && t.bytes_current == 0 && t.bytes_total
                == 0
        }),
{
}

/// Events come one after the other, wherever they are cut.
pub proof fn events_come_one_by_one(t: TrackerView, a: Seq<EventView>, b: Seq<EventView>)
    ensures
        after_events(t, a + b) == after_events(after_events(t, a), b),
        b.len() == 1 ==> after_events(t, b) == after_event(t, b[0]),
    decreases b.len(),
{
    reveal_with_fuel(after_events, 2);
    if b.len() == 0 {
        assert(a + b =~= a);
    } else {
        assert((a + b).drop_last() =~= a + b.drop_last());
        events_come_one_by_one(t, a, b.drop_last());
    }
}

/// Each statistic is added to its own.
pub proof fn statistics_add_up_apart(a: TransferStats, b: TransferStats)
    requires
        a.fits(b),
    ensures
        ({
            let c = a.plus(b);
            &&& c.total_files == a.total_files + b.total_files
            &&& c.files_transferred == a.files_transferred + b.files_transferred
            &&& c.files_skipped == a.files_skipped + b.files_skipped
            &&& c.files_deleted == a.files_deleted + b.files_deleted
            &&& c.directories_created == a.directories_created + b.directories_created
            &&& c.symlinks == a.symlinks + b.symlinks
            &&& c.total_size == a.total_size + b.total_size
            &&& c.literal_data == a.literal_data + b.literal_data
            &&& c.matched_data == a.matched_data + b.matched_data
            &&& c.bytes_sent == a.bytes_sent + b.bytes_sent
            &&& c.bytes_received == a.bytes_received + b.bytes_received
        }),
        a.plus(b) == b.plus(a),
        a.plus(TransferStats::zero()) == a,
{
}

} // verus!

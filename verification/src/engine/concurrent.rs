//! Several file transfers at a time.
//!
//! How many run at once is bounded; their results come out in the order of the
//! file list, whatever order they finish in.

use vstd::prelude::*;

use crate::filelist::entry::FileEntry;

verus! {

/// The most transfers that run at once.
pub const MAX_CONCURRENCY: usize = 64;

/// A number of transfers within bounds.
pub open spec fn clamped(n: usize) -> usize {
    if n < 1 {
        1
    } else if n > MAX_CONCURRENCY {
        MAX_CONCURRENCY
    } else {
        n
    }
}

/// A number of transfers within bounds.
pub fn clamp_concurrency(n: usize) -> (r: usize)
    ensures
        r == clamped(n),
        1 <= r <= MAX_CONCURRENCY,
{
    if n < 1 {
        1
    } else if n > MAX_CONCURRENCY {
        MAX_CONCURRENCY
    } else {
        n
    }
}

/// How many transfers of a pool run at once.
#[derive(Debug)]
pub struct TransferPool {
    max_concurrent: usize,
}

impl View for TransferPool {
    type V = usize;

    closed spec fn view(&self) -> usize {
        self.max_concurrent
    }
}

impl TransferPool {
    /// Create a new transfer pool with the given concurrency limit.
    ///
    /// The limit is clamped to [1, 64].
    pub fn new(max_concurrent: usize) -> (r: Self)
        ensures
            r@ == clamped(max_concurrent),
    {
        TransferPool { max_concurrent: clamp_concurrency(max_concurrent) }
    }

    /// Returns the configured concurrency limit.
    pub fn max_concurrent(&self) -> (r: usize)
        ensures
            r == self@,
    {
        self.max_concurrent
    }
}

/// The operation to perform on a file.
#[derive(Debug, Clone, Copy, PartialEq, Eq, Structural)]
pub enum FileOperation {
    /// Transfer the file (new or changed).
    Transfer,
    /// Skip the file (already up to date).
    Skip,
    /// Delete an extraneous file on the receiver.
    Delete,
}

/// A unit of work.
#[derive(Debug)]
pub struct FileTask {
    /// Position in the original file list, used to preserve result ordering.
    pub index: usize,
    /// File entry metadata from the file list.
    pub entry: FileEntry,
    /// What operation to perform.
    pub operation: FileOperation,
    /// Resolved source path (if applicable).
    pub source_path: Option<Vec<u8>>,
    /// Resolved destination path (if applicable).
    pub dest_path: Option<Vec<u8>>,
}

/// Result of processing a single file task.
#[derive(Debug)]
pub struct TaskResult {
    /// Index from the original file list, for ordered collection.
    pub index: usize,
    /// Number of bytes transferred (literal data).
    pub bytes_transferred: u64,
    /// Whether the file was actually transferred (vs skipped/deleted).
    pub transferred: bool,
    /// Error message if the task failed, `None` on success.
    pub error: Option<String>,
}

/// The view of a [`TaskResult`].
#[verifier::ext_equal]
pub struct TaskView {
    pub index: usize,
    pub bytes_transferred: u64,
    pub transferred: bool,
    pub error: Option<Seq<char>>,
}

impl View for TaskResult {
    type V = TaskView;

    open spec fn view(&self) -> TaskView {
        TaskView {
            index: self.index,
            bytes_transferred: self.bytes_transferred,
            transferred: self.transferred,
            error: match self.error {
                Some(t) => Some(t@),
                None => None,
            },
        }
    }
}

/// The views of results.
pub open spec fn result_views(s: Seq<TaskResult>) -> Seq<TaskView> {
    Seq::new(s.len(), |i: int| s[i]@)
}

/// The result of a task that left none.
pub open spec fn missing(index: usize) -> TaskView {
    TaskView {
        index,
        bytes_transferred: 0,
        transferred: false,
        error: Some("task result missing"@),
    }
}

/// Concurrent transfer pipeline.
#[derive(Debug)]
pub struct ConcurrentPipeline {
    concurrency: usize,
}

impl View for ConcurrentPipeline {
    type V = usize;

    closed spec fn view(&self) -> usize {
        self.concurrency
    }
}

impl ConcurrentPipeline {
    /// Create a new pipeline with the given concurrency level.
    ///
    /// The concurrency is clamped to the range 1..=64.
    pub fn new(concurrency: usize) -> (r: Self)
        ensures
            r@ == clamped(concurrency),
    {
        ConcurrentPipeline { concurrency: clamp_concurrency(concurrency) }
    }

    /// Returns the configured concurrency level.
    pub fn concurrency(&self) -> (r: usize)
        ensures
            r == self@,
    {
        self.concurrency
    }

    /// Returns `true` if this pipeline will process files sequentially.
    pub fn is_sequential(&self) -> (r: bool)
        ensures
            r == (self@ == 1),
    {
        self.concurrency == 1
    }
}

// ---------------------------------------------------------------------------
// Running tasks
// ---------------------------------------------------------------------------

/// Where a task is.
#[derive(Debug)]
pub enum TaskState<T> {
    /// It was not started.
    Waiting,
    /// It was started and has not ended.
    Running,
    /// It has ended, with its result where it left one.
    Done(Option<T>),
}

/// A run of tasks: which task is started next, which ones run, and what the
/// others left. Tasks are told apart by their place in the list.
#[derive(Debug)]
pub struct TaskRun<T> {
    limit: usize,
    next: usize,
    running: usize,
    states: Vec<TaskState<T>>,
}

/// The view of a [`TaskRun`].
#[verifier::ext_equal]
pub struct RunView<T> {
    /// How many tasks run at once at most.
    pub limit: nat,
    /// The task that is started next.
    pub next: nat,
    /// Where each task is.
    pub states: Seq<TaskState<T>>,
}

impl<T> View for TaskRun<T> {
    type V = RunView<T>;

    closed spec fn view(&self) -> RunView<T> {
        RunView { limit: self.limit as nat, next: self.next as nat, states: self.states@ }
    }
}

/// How many tasks run.
pub open spec fn in_flight<T>(s: Seq<TaskState<T>>) -> nat
    decreases s.len(),
{
    if s.len() == 0 {
        0
    } else {
        in_flight(s.drop_last()) + (if s.last() is Running {
            1nat
        } else {
            0nat
        })
    }
}

impl<T> RunView<T> {
    /// A run before its first task is started.
    pub open spec fn fresh(total: nat, concurrency: usize) -> RunView<T> {
        RunView {
            limit: clamped(concurrency) as nat,
            next: 0,
            states: Seq::new(total, |i: int| TaskState::Waiting),
        }
    }

    /// The tasks before the next one were started, no other was, and no more
    /// run than may.
    pub open spec fn wf(self) -> bool {
        &&& 1 <= self.limit <= MAX_CONCURRENCY
        &&& self.next <= self.states.len()
        &&& forall|i: int|
            0 <= i < self.states.len() ==> ((#[trigger] self.states[i]) is Waiting <==> i
                >= self.next)
        &&& in_flight(self.states) <= self.limit
    }

    /// Whether a task may be started now.
    pub open spec fn can_start(self) -> bool {
        self.next < self.states.len() && in_flight(self.states) < self.limit
    }

    /// After the next task was started.
    pub open spec fn started(self) -> RunView<T> {
        RunView {
            next: self.next + 1,
            states: self.states.update(self.next as int, TaskState::Running),
            ..self
        }
    }

    /// Whether a task runs.
    pub open spec fn runs(self, at: int) -> bool {
        0 <= at < self.states.len() && self.states[at] is Running
    }

    /// After a task has ended. Nothing comes from a task that does not run.
    pub open spec fn finished(self, at: int, result: Option<T>) -> RunView<T> {
        if self.runs(at) {
            RunView { states: self.states.update(at, TaskState::Done(result)), ..self }
        } else {
            self
        }
    }

    /// Whether every task has ended.
    pub open spec fn is_over(self) -> bool {
        forall|i: int| 0 <= i < self.states.len() ==> (#[trigger] self.states[i]) is Done
    }
}

proof fn update_counted<T>(s: Seq<TaskState<T>>, i: int, x: TaskState<T>)
    requires
        0 <= i < s.len(),
    ensures
        in_flight(s.update(i, x)) == in_flight(s) - (if s[i] is Running {
            1int
        } else {
            0int
        }) + (if x is Running {
            1int
        } else {
            0int
        }),
    decreases s.len(),
{
    let t = s.update(i, x);
    if i == s.len() - 1 {
        assert(t.drop_last() =~= s.drop_last());
    } else {
        update_counted(s.drop_last(), i, x);
        assert(t.drop_last() =~= s.drop_last().update(i, x));
    }
}

proof fn none_counted<T>(s: Seq<TaskState<T>>)
    requires
        forall|i: int| 0 <= i < s.len() ==> !((#[trigger] s[i]) is Running),
    ensures
        in_flight(s) == 0,
    decreases s.len(),
{
    if s.len() > 0 {
        none_counted(s.drop_last());
    }
}

proof fn one_counted<T>(s: Seq<TaskState<T>>, i: int)
    requires
        0 <= i < s.len(),
        s[i] is Running,
    ensures
        in_flight(s) > 0,
    decreases s.len(),
{
    if i < s.len() - 1 {
        one_counted(s.drop_last(), i);
    }
}

impl<T> TaskRun<T> {
    /// The run is in order.
    pub closed spec fn wf(&self) -> bool {
        self@.wf() && self.running == in_flight(self.states@)
    }

    /// A run of tasks, none of which was started. As many run at once as are
    /// wanted, within bounds.
    pub fn new(total: usize, concurrency: usize) -> (r: Self)
        ensures
            r.wf(),
            r@ == RunView::<T>::fresh(total as nat, concurrency),
    {
        let limit = clamp_concurrency(concurrency);
        let mut states: Vec<TaskState<T>> = Vec::new();
        let mut i: usize = 0;
        while i < total
            invariant
                i <= total,
                states.len() == i,
                forall|j: int| 0 <= j < i ==> (#[trigger] states@[j]) == TaskState::<T>::Waiting,
            decreases total - i,
        {
            states.push(TaskState::Waiting);
            i = i + 1;
        }
        proof {
            none_counted(states@);
        }
        let r = TaskRun { limit, next: 0, running: 0, states };
        assert(r@ =~= RunView::<T>::fresh(total as nat, concurrency));
        r
    }

    /// Starts the next task, where one is left and not too many run: gives its
    /// place in the list.
    pub fn start(&mut self) -> (r: Option<usize>)
        requires
            old(self).wf(),
        ensures
            final(self).wf(),
            match r {
                Some(at) => old(self)@.can_start() && at == old(self)@.next && final(self)@
                    == old(self)@.started(),
                None => !old(self)@.can_start() && final(self)@ == old(self)@,
            },
    {
        let ghost v = self@;
        if self.next >= self.states.len() || self.running >= self.limit {
            return None;
        }
        let at: usize = self.next;
        proof {
            update_counted(v.states, at as int, TaskState::Running);
        }
        self.states.set(at, TaskState::Running);
        self.next = at + 1;
        self.running = self.running + 1;
        assert(self@ =~= v.started());
        Some(at)
    }

    /// Notes that a task has ended, with its result where it left one. Says
    /// whether the task ran.
    pub fn finish(&mut self, at: usize, result: Option<T>) -> (r: bool)
        requires
            old(self).wf(),
        ensures
            final(self).wf(),
            r == old(self)@.runs(at as int),
            final(self)@ == old(self)@.finished(at as int, result),
    {
        let ghost v = self@;
        let runs = at < self.states.len() && match &self.states[at] {
            TaskState::Running => true,
            _ => false,
        };
        if runs {
            proof {
                one_counted(v.states, at as int);
                update_counted(v.states, at as int, TaskState::Done(result));
            }
            self.states.set(at, TaskState::Done(result));
            self.running = self.running - 1;
            assert(self@ =~= v.finished(at as int, result));
        }
        runs
    }

    /// Whether every task has ended.
    pub fn is_over(&self) -> (r: bool)
        requires
            self.wf(),
        ensures
            r == self@.is_over(),
    {
        let ghost v = self@;
        if self.next < self.states.len() {
            assert(v.states[v.next as int] is Waiting);
            return false;
        }
        proof {
            if self.running == 0 {
                assert forall|i: int| 0 <= i < v.states.len() implies (#[trigger] v.states[i])
                    is Done by {
                    if v.states[i] is Running {
                        one_counted(v.states, i);
                    }
                }
            } else if v.is_over() {
                none_counted(v.states);
            }
        }
        self.running == 0
    }
}

/// The results of tasks in the order of the list.
pub open spec fn outcomes(s: Seq<TaskState<TaskResult>>) -> Seq<TaskView> {
    Seq::new(
        s.len(),
        |i: int|
            match s[i] {
                TaskState::Done(Some(t)) => t@,
                _ => missing(i as usize),
            },
    )
}

impl TaskRun<TaskResult> {
    /// The results, in the order of the list. A task that left none has one
    /// that says so.
    pub fn into_results(self) -> (r: Vec<TaskResult>)
        requires
            self.wf(),
        ensures
            result_views(r@) == outcomes(self@.states),
    {
        let ghost all = self.states@;
        let states = self.states;
        let mut out: Vec<TaskResult> = Vec::new();
        for state in it: states.into_iter()
            invariant
                it.seq() == all,
                out.len() == it.index(),
                forall|j: int|
                    0 <= j < it.index() ==> (#[trigger] out@[j])@ == outcomes(all)[j],
        {
            let at: usize = out.len();
            let t = match state {
                TaskState::Done(Some(t)) => t,
                _ => TaskResult {
                    index: at,
                    bytes_transferred: 0,
                    transferred: false,
                    error: Some("task result missing".to_owned()),
                },
            };
            assert(t@ =~= outcomes(all)[at as int]);
            out.push(t);
        }
        assert(result_views(out@) =~= outcomes(all));
        out
    }
}

// ---------------------------------------------------------------------------
// What holds of every run
// ---------------------------------------------------------------------------

/// What happens in a run.
pub enum RunEvent<T> {
    /// The next task is started, where one may be.
    Start,
    /// A task ends.
    Finish { at: int, result: Option<T> },
}

impl<T> RunView<T> {
    /// After an event.
    pub open spec fn after(self, e: RunEvent<T>) -> RunView<T> {
        match e {
            RunEvent::Start => if self.can_start() {
                self.started()
            } else {
                self
            },
            RunEvent::Finish { at, result } => self.finished(at, result),
        }
    }

    /// After events.
    pub open spec fn after_all(self, events: Seq<RunEvent<T>>) -> RunView<T>
        decreases events.len(),
    {
        if events.len() == 0 {
            self
        } else {
            self.after_all(events.drop_last()).after(events.last())
        }
    }

    /// The tasks that events start, in turn.
    pub open spec fn starts(self, events: Seq<RunEvent<T>>) -> Seq<int>
        decreases events.len(),
    {
        if events.len() == 0 {
            Seq::empty()
        } else {
            let v = self.after_all(events.drop_last());
            let had = self.starts(events.drop_last());
            if events.last() is Start && v.can_start() {
                had.push(v.next as int)
            } else {
                had
            }
        }
    }
}

/// In no run do more tasks run at once than may: at least one may, and never
/// more than the bound.
pub proof fn limit_is_kept<T>(total: nat, concurrency: usize, events: Seq<RunEvent<T>>)
    ensures
        ({
            let v = RunView::<T>::fresh(total, concurrency).after_all(events);
            &&& v.wf()
            &&& v.limit == clamped(concurrency)
            &&& v.states.len() == total
            &&& in_flight(v.states) <= clamped(concurrency) <= MAX_CONCURRENCY
        }),
    decreases events.len(),
{
    let fresh = RunView::<T>::fresh(total, concurrency);
    if events.len() == 0 {
        none_counted(fresh.states);
    } else {
        limit_is_kept(total, concurrency, events.drop_last());
        let v = fresh.after_all(events.drop_last());
        match events.last() {
            RunEvent::Start => {
                if v.can_start() {
                    update_counted(v.states, v.next as int, TaskState::Running);
                }
            },
            RunEvent::Finish { at, result } => {
                if v.runs(at) {
                    one_counted(v.states, at);
                    update_counted(v.states, at, TaskState::Done(result));
                }
            },
        }
    }
}

/// The tasks are started in the order of the list, each once, and all of them
/// where the run is over.
pub proof fn every_task_starts_once<T>(total: nat, concurrency: usize, events: Seq<RunEvent<T>>)
    ensures
        ({
            let fresh = RunView::<T>::fresh(total, concurrency);
            let v = fresh.after_all(events);
            &&& fresh.starts(events) == Seq::new(v.next, |i: int| i)
            &&& v.is_over() ==> v.next == total
        }),
    decreases events.len(),
{
    let fresh = RunView::<T>::fresh(total, concurrency);
    let v = fresh.after_all(events);
    limit_is_kept(total, concurrency, events);
    if events.len() > 0 {
        every_task_starts_once(total, concurrency, events.drop_last());
    }
    assert(fresh.starts(events) =~= Seq::new(v.next, |i: int| i));
    if v.next < total {
        assert(v.states[v.next as int] is Waiting);
    }
}

/// What a run leaves depends only on what its tasks leave: neither on the order
/// in which they end nor on how many run at once.
pub proof fn results_are_fixed<T>(
    total: nat,
    concurrency: usize,
    events: Seq<RunEvent<T>>,
    leaves: spec_fn(int) -> Option<T>,
)
    requires
        forall|k: int|
            0 <= k < events.len() ==> match #[trigger] events[k] {
                RunEvent::Finish { at, result } => result == leaves(at),
                RunEvent::Start => true,
            },
        RunView::<T>::fresh(total, concurrency).after_all(events).is_over(),
    ensures
        RunView::<T>::fresh(total, concurrency).after_all(events).states == Seq::new(
            total,
            |i: int| TaskState::Done(leaves(i)),
        ),
{
    let v = RunView::<T>::fresh(total, concurrency).after_all(events);
    limit_is_kept(total, concurrency, events);
    done_as_left(total, concurrency, events, leaves);
    assert(v.states =~= Seq::new(total, |i: int| TaskState::Done(leaves(i))));
}

proof fn done_as_left<T>(
    total: nat,
    concurrency: usize,
    events: Seq<RunEvent<T>>,
    leaves: spec_fn(int) -> Option<T>,
)
    requires
        forall|k: int|
            0 <= k < events.len() ==> match #[trigger] events[k] {
                RunEvent::Finish { at, result } => result == leaves(at),
                RunEvent::Start => true,
            },
    ensures
        ({
            let v = RunView::<T>::fresh(total, concurrency).after_all(events);
            forall|i: int|
                0 <= i < v.states.len() && (#[trigger] v.states[i]) is Done ==> v.states[i]
                    == TaskState::Done(leaves(i))
        }),
    decreases events.len(),
{
    if events.len() > 0 {
        let h = events.drop_last();
        assert forall|k: int| 0 <= k < h.len() implies match #[trigger] h[k] {
            RunEvent::Finish { at, result } => result == leaves(at),
            RunEvent::Start => true,
        } by {
            assert(events[k] == h[k]);
        }
        done_as_left(total, concurrency, h, leaves);
        assert(events[events.len() - 1] == events.last());
    }
}

/// A run never stands still: where it is not over, a task runs or the next one
/// may be started.
pub proof fn a_run_goes_on<T>(v: RunView<T>)
    requires
        v.wf(),
        !v.is_over(),
    ensures
        v.can_start() || in_flight(v.states) > 0,
{
    if in_flight(v.states) == 0 && v.next >= v.states.len() {
        let i = choose|i: int| 0 <= i < v.states.len() && !((#[trigger] v.states[i]) is Done);
        one_counted(v.states, i);
    }
}

} // verus!

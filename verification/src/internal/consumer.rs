use crate::internal::trace::lemma_contains_split;
use async_channel::{Receiver, Sender};
use std::sync::Arc;
use vstd::prelude::*;

verus! {

/// What can happen to a governor.
#[derive(Clone, Copy, Debug, PartialEq, Eq, Structural)]
pub enum GovernorEvent {
    /// A raw token arrived; `busy` is the number of busy workers read at that
    /// instant.
    Token { busy: usize },
    /// The producer's side of the token channel is closed.
    UpstreamClosed,
    /// The cancellation arrived.
    Cancelled,
}

/// What a governor asks for in answer to an event.
#[derive(Clone, Copy, Debug, PartialEq, Eq, Structural)]
pub enum GovernorAction {
    /// Pass the token on to the workers.
    Forward,
    /// Drop the token.
    Discard,
    /// The dispatch channel has just been closed: end.
    Close,
    /// The governor has ended: do nothing.
    Nothing,
}

/// A governor as numbers.
pub struct GovernorState {
    pub total_workers: nat,
    pub stopped: bool,
}

impl GovernorState {
    /// The action that answers `event`: a token is passed on exactly when
    /// fewer workers are busy than there are.
    pub open spec fn action(self, event: GovernorEvent) -> GovernorAction {
        if self.stopped {
            GovernorAction::Nothing
        } else {
            match event {
                GovernorEvent::Token { busy } => if busy < self.total_workers {
                    GovernorAction::Forward
                } else {
                    GovernorAction::Discard
                },
                GovernorEvent::UpstreamClosed => GovernorAction::Close,
                GovernorEvent::Cancelled => GovernorAction::Close,
            }
        }
    }

    /// The state after `event`.
    pub open spec fn step(self, event: GovernorEvent) -> GovernorState {
        GovernorState {
            total_workers: self.total_workers,
            stopped: self.stopped || !(event is Token),
        }
    }

    /// The state after all of `events`, in their order.
    pub open spec fn run(self, events: Seq<GovernorEvent>) -> GovernorState
        decreases events.len(),
    {
        if events.len() == 0 {
            self
        } else {
            self.step(events.first()).run(events.drop_first())
        }
    }

    /// How many of `events` are answered by `Close`.
    pub open spec fn closes(self, events: Seq<GovernorEvent>) -> nat
        decreases events.len(),
    {
        if events.len() == 0 {
            0
        } else {
            let now: nat = if self.action(events.first()) == GovernorAction::Close {
                1
            } else {
                0
            };
            now + self.step(events.first()).closes(events.drop_first())
        }
    }

    /// How many of `events` are answered by `Forward`.
    pub open spec fn forwards(self, events: Seq<GovernorEvent>) -> nat
        decreases events.len(),
    {
        if events.len() == 0 {
            0
        } else {
            let now: nat = if self.action(events.first()) == GovernorAction::Forward {
                1
            } else {
                0
            };
            now + self.step(events.first()).forwards(events.drop_first())
        }
    }
}

/// A running governor passes a token on exactly when fewer workers are busy
/// than there are: with all of them busy at the instant of the reading, the
/// token is dropped.
pub proof fn lemma_admission(state: GovernorState, busy: usize)
    requires
        !state.stopped,
    ensures
        busy < state.total_workers <==> state.action(GovernorEvent::Token { busy })
            == GovernorAction::Forward,
        busy >= state.total_workers <==> state.action(GovernorEvent::Token { busy })
            == GovernorAction::Discard,
        state.step(GovernorEvent::Token { busy }) == state,
{
}

/// Whatever happens to a governor, it closes the dispatch channel exactly
/// once if the end of the tokens or a cancellation is among the events and
/// never otherwise, and it passes on no token after that.
pub proof fn lemma_governor_closes_once(state: GovernorState, events: Seq<GovernorEvent>)
    ensures
        state.stopped ==> state.closes(events) == 0 && state.forwards(events) == 0 && state.run(
            events,
        ) == state,
        !state.stopped ==> state.closes(events) == (if events.contains(
            GovernorEvent::UpstreamClosed,
        ) || events.contains(GovernorEvent::Cancelled) {
            1nat
        } else {
            0nat
        }),
    decreases events.len(),
{
    if events.len() > 0 {
        lemma_contains_split(events, GovernorEvent::UpstreamClosed);
        lemma_contains_split(events, GovernorEvent::Cancelled);
        lemma_governor_closes_once(state.step(events.first()), events.drop_first());
    }
}

/// The deciding half of the governor task: the filter between the raw tokens
/// and the workers.
pub struct Governor {
    total_workers: usize,
    stopped: bool,
    dispatch: Sender<i64>,
}

impl View for Governor {
    type V = GovernorState;

    closed spec fn view(&self) -> GovernorState {
        GovernorState { total_workers: self.total_workers as nat, stopped: self.stopped }
    }
}

impl Governor {
    /// A running governor in front of `total_workers` workers, which passes
    /// tokens on to them through `dispatch`.
    pub fn new(total_workers: usize, dispatch: Sender<i64>) -> (governor: Governor)
        ensures
            governor@ == (GovernorState { total_workers: total_workers as nat, stopped: false }),
            governor.sender() == dispatch,
    {
        Governor { total_workers, stopped: false, dispatch }
    }

    /// The handle on which the governor passes tokens on.
    pub closed spec fn sender(&self) -> Sender<i64> {
        self.dispatch
    }

    /// The sending side of the dispatch channel, for the tokens that `step`
    /// passes on.
    pub fn dispatch(&self) -> (dispatch: &Sender<i64>)
        ensures
            *dispatch == self.sender(),
    {
        &self.dispatch
    }

    /// Whether the governor has ended.
    pub fn is_stopped(&self) -> (stopped: bool)
        ensures
            stopped == self@.stopped,
    {
        self.stopped
    }

    /// Takes one event and says what to do about it. When the tokens end, or
    /// on the cancellation, it closes the dispatch channel.
    pub fn step(&mut self, event: GovernorEvent) -> (action: GovernorAction)
        ensures
            action == old(self)@.action(event),
            final(self)@ == old(self)@.step(event),
            final(self).sender() == old(self).sender(),
    {
        if self.stopped {
            GovernorAction::Nothing
        } else {
            match event {
                GovernorEvent::Token { busy } => {
                    if busy < self.total_workers {
                        GovernorAction::Forward
                    } else {
                        GovernorAction::Discard
                    }
                },
                GovernorEvent::UpstreamClosed => {
                    let _ = self.dispatch.close();
                    self.stopped = true;
                    GovernorAction::Close
                },
                GovernorEvent::Cancelled => {
                    let _ = self.dispatch.close();
                    self.stopped = true;
                    GovernorAction::Close
                },
            }
        }
    }
}

/// What can happen to a worker.
#[derive(Clone, Copy, Debug, PartialEq, Eq, Structural)]
pub enum WorkerEvent {
    /// A token arrived on the dispatch channel.
    Token,
    /// The handler returned, with success or with a failure.
    Handled { success: bool },
    /// The dispatch channel is closed.
    DispatchClosed,
    /// The cancellation arrived.
    Cancelled,
}

/// What a worker asks for in answer to an event.
#[derive(Clone, Copy, Debug, PartialEq, Eq, Structural)]
pub enum WorkerAction {
    /// Add one to the busy count, then call the handler.
    Invoke,
    /// Take one from the busy count, then report the handled work of the
    /// worker `index`.
    Report { index: usize, success: bool },
    /// Take one from the busy count if `release` says so, report the worker
    /// `index` as killed, and end.
    Exit { index: usize, release: bool },
    /// Nothing to do.
    Nothing,
}

/// Where a worker stands.
#[derive(Clone, Copy, Debug, PartialEq, Eq, Structural)]
pub enum WorkerPhase {
    Idle,
    Busy,
    Exited,
}

/// A worker as plain values.
pub struct WorkerState {
    pub index: usize,
    pub phase: WorkerPhase,
}

/// What a worker in `phase` adds to the busy count: one while it is busy.
pub open spec fn busy_credit(phase: WorkerPhase) -> int {
    if phase == WorkerPhase::Busy {
        1
    } else {
        0
    }
}

/// What carrying out `action` adds to the busy count.
pub open spec fn busy_change(action: WorkerAction) -> int {
    match action {
        WorkerAction::Invoke => 1,
        WorkerAction::Report { .. } => -1,
        WorkerAction::Exit { release, .. } => if release {
            -1
        } else {
            0
        },
        WorkerAction::Nothing => 0,
    }
}

impl WorkerState {
    /// The action that answers `event`.
    pub open spec fn action(self, event: WorkerEvent) -> WorkerAction {
        match (self.phase, event) {
            (WorkerPhase::Idle, WorkerEvent::Token) => WorkerAction::Invoke,
            (WorkerPhase::Busy, WorkerEvent::Handled { success }) => WorkerAction::Report {
                index: self.index,
                success,
            },
            (WorkerPhase::Idle, WorkerEvent::DispatchClosed) => WorkerAction::Exit {
                index: self.index,
                release: false,
            },
            (WorkerPhase::Idle, WorkerEvent::Cancelled) => WorkerAction::Exit {
                index: self.index,
                release: false,
            },
            (WorkerPhase::Busy, WorkerEvent::DispatchClosed) => WorkerAction::Exit {
                index: self.index,
                release: true,
            },
            (WorkerPhase::Busy, WorkerEvent::Cancelled) => WorkerAction::Exit {
                index: self.index,
                release: true,
            },
            _ => WorkerAction::Nothing,
        }
    }

    /// The state after `event`.
    pub open spec fn step(self, event: WorkerEvent) -> WorkerState {
        WorkerState {
            index: self.index,
            phase: match self.action(event) {
                WorkerAction::Invoke => WorkerPhase::Busy,
                WorkerAction::Report { .. } => WorkerPhase::Idle,
                WorkerAction::Exit { .. } => WorkerPhase::Exited,
                WorkerAction::Nothing => self.phase,
            },
        }
    }

    /// The state after all of `events`, in their order.
    pub open spec fn run(self, events: Seq<WorkerEvent>) -> WorkerState
        decreases events.len(),
    {
        if events.len() == 0 {
            self
        } else {
            self.step(events.first()).run(events.drop_first())
        }
    }

    /// How many of `events` are answered by an `Exit`.
    pub open spec fn exits(self, events: Seq<WorkerEvent>) -> nat
        decreases events.len(),
    {
        if events.len() == 0 {
            0
        } else {
            let now: nat = if self.action(events.first()) is Exit {
                1
            } else {
                0
            };
            now + self.step(events.first()).exits(events.drop_first())
        }
    }

    /// What carrying out the answers to `events` adds to the busy count, all
    /// together.
    pub open spec fn busy_changes(self, events: Seq<WorkerEvent>) -> int
        decreases events.len(),
    {
        if events.len() == 0 {
            0
        } else {
            busy_change(self.action(events.first())) + self.step(events.first()).busy_changes(
                events.drop_first(),
            )
        }
    }
}

/// Each answer changes the busy count by what the worker's step changes in
/// its credit: every increment is paired with one decrement, on every path.
pub proof fn lemma_worker_credit(state: WorkerState, event: WorkerEvent)
    ensures
        busy_credit(state.step(event).phase) == busy_credit(state.phase) + busy_change(
            state.action(event),
        ),
        state.step(event).index == state.index,
{
}

/// Whatever happens to a worker, it reports itself killed exactly once if
/// the end of the dispatch channel or a cancellation is among the events and
/// never otherwise; it has then exited and holds no busy credit. Over the
/// whole run the busy count has changed by the change in its credit.
pub proof fn lemma_worker_exits_once(state: WorkerState, events: Seq<WorkerEvent>)
    ensures
        state.phase == WorkerPhase::Exited ==> state.exits(events) == 0 && state.run(events)
            == state,
        state.phase != WorkerPhase::Exited ==> state.exits(events) == (if events.contains(
            WorkerEvent::DispatchClosed,
        ) || events.contains(WorkerEvent::Cancelled) {
            1nat
        } else {
            0nat
        }),
        state.exits(events) == 1 ==> state.run(events).phase == WorkerPhase::Exited,
        busy_credit(state.run(events).phase) == busy_credit(state.phase) + state.busy_changes(
            events,
        ),
    decreases events.len(),
{
    if events.len() > 0 {
        lemma_contains_split(events, WorkerEvent::DispatchClosed);
        lemma_contains_split(events, WorkerEvent::Cancelled);
        lemma_worker_exits_once(state.step(events.first()), events.drop_first());
    }
}

/// The deciding half of one worker task.
#[derive(Clone, Copy)]
pub struct Worker {
    index: usize,
    phase: WorkerPhase,
}

impl View for Worker {
    type V = WorkerState;

    closed spec fn view(&self) -> WorkerState {
        WorkerState { index: self.index, phase: self.phase }
    }
}

impl Worker {
    /// An idle worker with the number `index`.
    pub fn new(index: usize) -> (worker: Worker)
        ensures
            worker@ == (WorkerState { index, phase: WorkerPhase::Idle }),
    {
        Worker { index, phase: WorkerPhase::Idle }
    }

    /// The worker's number.
    pub fn index(&self) -> (index: usize)
        ensures
            index == self@.index,
    {
        self.index
    }

    /// Where the worker stands.
    pub fn phase(&self) -> (phase: WorkerPhase)
        ensures
            phase == self@.phase,
    {
        self.phase
    }

    /// Takes one event and says what to do about it.
    pub fn step(&mut self, event: WorkerEvent) -> (action: WorkerAction)
        ensures
            action == old(self)@.action(event),
            final(self)@ == old(self)@.step(event),
    {
        let action = match self.phase {
            WorkerPhase::Idle => match event {
                WorkerEvent::Token => WorkerAction::Invoke,
                WorkerEvent::Handled { .. } => WorkerAction::Nothing,
                WorkerEvent::DispatchClosed => WorkerAction::Exit {
                    index: self.index,
                    release: false,
                },
                WorkerEvent::Cancelled => WorkerAction::Exit { index: self.index, release: false },
            },
            WorkerPhase::Busy => match event {
                WorkerEvent::Token => WorkerAction::Nothing,
                WorkerEvent::Handled { success } => WorkerAction::Report {
                    index: self.index,
                    success,
                },
                WorkerEvent::DispatchClosed => WorkerAction::Exit {
                    index: self.index,
                    release: true,
                },
                WorkerEvent::Cancelled => WorkerAction::Exit { index: self.index, release: true },
            },
            WorkerPhase::Exited => WorkerAction::Nothing,
        };
        match action {
            WorkerAction::Invoke => {
                self.phase = WorkerPhase::Busy;
            },
            WorkerAction::Report { .. } => {
                self.phase = WorkerPhase::Idle;
            },
            WorkerAction::Exit { .. } => {
                self.phase = WorkerPhase::Exited;
            },
            WorkerAction::Nothing => {},
        }
        action
    }
}

/// The number of busy workers among `workers`.
pub open spec fn busy_count(workers: Seq<WorkerState>) -> int
    decreases workers.len(),
{
    if workers.len() == 0 {
        0
    } else {
        busy_count(workers.drop_last()) + busy_credit(workers.last().phase)
    }
}

/// No more workers are busy than there are.
pub proof fn lemma_busy_count_bound(workers: Seq<WorkerState>)
    ensures
        0 <= busy_count(workers) <= workers.len(),
    decreases workers.len(),
{
    if workers.len() > 0 {
        lemma_busy_count_bound(workers.drop_last());
    }
}

/// Replacing one worker changes the number of busy workers by the change in
/// that worker's credit.
pub proof fn lemma_busy_count_update(workers: Seq<WorkerState>, index: int, worker: WorkerState)
    requires
        0 <= index < workers.len(),
    ensures
        busy_count(workers.update(index, worker)) == busy_count(workers) - busy_credit(
            workers[index].phase,
        ) + busy_credit(worker.phase),
    decreases workers.len(),
{
    let updated = workers.update(index, worker);
    if index == workers.len() - 1 {
        assert(updated.drop_last() =~= workers.drop_last());
    } else {
        lemma_busy_count_update(workers.drop_last(), index, worker);
        assert(updated.drop_last() =~= workers.drop_last().update(index, worker));
    }
}

/// A pool of workers as plain values: the workers, and the shared count of
/// the busy ones, which each worker raises and lowers as its answers say.
pub struct PoolState {
    pub workers: Seq<WorkerState>,
    pub busy: int,
}

impl PoolState {
    /// The count is the number of busy workers, and each worker carries its
    /// place as its number.
    pub open spec fn wf(self) -> bool {
        &&& self.busy == busy_count(self.workers)
        &&& forall|i: int| 0 <= i < self.workers.len() ==> (#[trigger] self.workers[i]).index == i
    }

    /// The pool after the worker `index` has taken `event` and its answer
    /// has been carried out on the count.
    pub open spec fn step(self, index: int, event: WorkerEvent) -> PoolState
        recommends
            0 <= index < self.workers.len(),
    {
        PoolState {
            workers: self.workers.update(index, self.workers[index].step(event)),
            busy: self.busy + busy_change(self.workers[index].action(event)),
        }
    }

    /// The pool after each of `events` has gone to the worker named with it,
    /// in their order.
    pub open spec fn run(self, events: Seq<(int, WorkerEvent)>) -> PoolState
        decreases events.len(),
    {
        if events.len() == 0 {
            self
        } else {
            self.step(events.first().0, events.first().1).run(events.drop_first())
        }
    }
}

/// One step keeps the count equal to the number of busy workers.
pub proof fn lemma_pool_step(pool: PoolState, index: int, event: WorkerEvent)
    requires
        pool.wf(),
        0 <= index < pool.workers.len(),
    ensures
        pool.step(index, event).wf(),
        pool.step(index, event).workers.len() == pool.workers.len(),
        0 <= pool.step(index, event).busy <= pool.workers.len(),
{
    let worker = pool.workers[index];
    lemma_worker_credit(worker, event);
    lemma_busy_count_update(pool.workers, index, worker.step(event));
    lemma_busy_count_bound(pool.step(index, event).workers);
}

/// However the workers' events interleave, at every instant the busy count
/// is the number of busy workers, and so never above the number of workers.
pub proof fn lemma_pool_busy_bound(pool: PoolState, events: Seq<(int, WorkerEvent)>)
    requires
        pool.wf(),
        forall|k: int| 0 <= k < events.len() ==> 0 <= (#[trigger] events[k]).0 < pool.workers.len(),
    ensures
        pool.run(events).wf(),
        pool.run(events).workers.len() == pool.workers.len(),
        0 <= pool.run(events).busy <= pool.workers.len(),
    decreases events.len(),
{
    if events.len() == 0 {
        lemma_busy_count_bound(pool.workers);
    } else {
        let first = events.first();
        lemma_pool_step(pool, first.0, first.1);
        let rest = events.drop_first();
        assert forall|k: int| 0 <= k < rest.len() implies 0 <= (#[trigger] rest[k]).0
            < pool.workers.len() by {
            assert(rest[k] == events[k + 1]);
        }
        lemma_pool_busy_bound(pool.step(first.0, first.1), rest);
    }
}

/// A pool of workers with its busy count, taken one event at a time.
pub struct WorkerPool {
    workers: Vec<Worker>,
    busy: usize,
}

impl View for WorkerPool {
    type V = PoolState;

    closed spec fn view(&self) -> PoolState {
        PoolState { workers: self.workers@.map_values(|w: Worker| w@), busy: self.busy as int }
    }
}

impl WorkerPool {
    /// The pool's count is right and its workers are numbered in order.
    pub open spec fn wf(&self) -> bool {
        self@.wf()
    }

    /// A pool of `total_workers` idle workers, numbered from zero, none of
    /// them busy.
    pub fn new(total_workers: u8) -> (pool: WorkerPool)
        ensures
            pool.wf(),
            pool@.busy == 0,
            pool@.workers.len() == total_workers,
            forall|i: int|
                0 <= i < total_workers ==> (#[trigger] pool@.workers[i]).phase == WorkerPhase::Idle,
    {
        let mut workers: Vec<Worker> = Vec::new();
        let mut i: usize = 0;
        let total: usize = total_workers as usize;
        while i < total
            invariant
                i <= total,
                workers@.len() == i,
                forall|k: int|
                    0 <= k < i ==> (#[trigger] workers@[k])@ == (WorkerState {
                        index: k as usize,
                        phase: WorkerPhase::Idle,
                    }),
                busy_count(workers@.map_values(|w: Worker| w@)) == 0,
            decreases total - i,
        {
            let ghost before = workers@.map_values(|w: Worker| w@);
            workers.push(Worker::new(i));
            proof {
                let now = workers@.map_values(|w: Worker| w@);
                assert(now.drop_last() =~= before);
            }
            i = i + 1;
        }
        WorkerPool { workers, busy: 0 }
    }

    /// The number of workers.
    pub fn total_workers(&self) -> (total: usize)
        ensures
            total == self@.workers.len(),
    {
        self.workers.len()
    }

    /// The number of busy workers: never more than there are.
    pub fn busy_workers(&self) -> (busy: usize)
        requires
            self.wf(),
        ensures
            busy == self@.busy,
            busy == busy_count(self@.workers),
            busy <= self@.workers.len(),
    {
        proof {
            lemma_busy_count_bound(self@.workers);
        }
        self.busy
    }

    /// Hands `event` to the worker `index` and carries its answer out on the
    /// busy count. Without such a worker nothing happens.
    pub fn step(&mut self, index: usize, event: WorkerEvent) -> (action: WorkerAction)
        requires
            old(self).wf(),
        ensures
            final(self).wf(),
            index < old(self)@.workers.len() ==> action == old(self)@.workers[index as int].action(
                event,
            ) && final(self)@ == old(self)@.step(index as int, event),
            index >= old(self)@.workers.len() ==> action == WorkerAction::Nothing && final(self)@
                == old(self)@,
    {
        if index >= self.workers.len() {
            return WorkerAction::Nothing;
        }
        let ghost before = self@;
        proof {
            lemma_pool_step(before, index as int, event);
        }
        let mut worker: Worker = self.workers[index];
        let action = worker.step(event);
        self.workers.set(index, worker);
        match action {
            WorkerAction::Invoke => {
                self.busy = self.busy + 1;
            },
            WorkerAction::Report { .. } => {
                self.busy = self.busy - 1;
            },
            WorkerAction::Exit { release, .. } => {
                if release {
                    self.busy = self.busy - 1;
                }
            },
            WorkerAction::Nothing => {},
        }
        proof {
            assert(self@.workers =~= before.step(index as int, event).workers);
        }
        action
    }
}

/// A runner: how many workers there are, and the handler that each of them
/// calls for a token.
pub struct TestRunner<H> {
    concurrency: u8,
    handler: H,
}

impl<H> TestRunner<H> {
    /// The number of workers.
    pub closed spec fn workers(&self) -> u8 {
        self.concurrency
    }

    /// The handler.
    pub closed spec fn work(&self) -> H {
        self.handler
    }

    /// A runner of `concurrency` workers that call `handler`.
    pub fn new(concurrency: u8, handler: H) -> (runner: Box<TestRunner<H>>)
        ensures
            runner.workers() == concurrency,
            runner.work() == handler,
    {
        Box::new(TestRunner { concurrency, handler })
    }

    /// The number of workers.
    pub fn concurrency(&self) -> (concurrency: u8)
        ensures
            concurrency == self.workers(),
    {
        self.concurrency
    }

    /// The handler.
    pub fn handler(&self) -> (handler: &H)
        ensures
            *handler == self.work(),
    {
        &self.handler
    }

    /// Sets the consumers up: a fresh dispatch channel, a running governor
    /// that sends on it, its receiving side for the workers, and as many
    /// idle workers as the runner has, numbered from zero.
    pub fn run(&self) -> (parts: (Governor, Receiver<i64>, Vec<Worker>))
        ensures
            parts.0@ == (GovernorState { total_workers: self.workers() as nat, stopped: false }),
            parts.2@.len() == self.workers(),
            forall|i: int|
                0 <= i < self.workers() ==> (#[trigger] parts.2@[i])@ == (WorkerState {
                    index: i as usize,
                    phase: WorkerPhase::Idle,
                }),
    {
        let total: usize = self.concurrency as usize;
        let (g_tx, g_rx) = async_channel::unbounded::<i64>();
        let governor = Governor::new(total, g_tx);
        let mut workers: Vec<Worker> = Vec::new();
        let mut i: usize = 0;
        while i < total
            invariant
                i <= total,
                workers@.len() == i,
                forall|k: int|
                    0 <= k < i ==> (#[trigger] workers@[k])@ == (WorkerState {
                        index: k as usize,
                        phase: WorkerPhase::Idle,
                    }),
            decreases total - i,
        {
            workers.push(Worker::new(i));
            i = i + 1;
        }
        (governor, g_rx, workers)
    }
}

/// The callbacks of the workers: `on_worker_killed` is called once for each
/// worker, when it ends, and `on_work_handled` once for each call of the
/// handler.
pub struct ConsumerEvents<K, W> {
    pub on_worker_killed: Arc<K>,
    pub on_work_handled: Arc<W>,
}

} // verus!

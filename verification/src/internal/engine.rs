use crate::internal::consumer::{
    GovernorEvent, GovernorState, WorkerAction, WorkerEvent, WorkerPhase, WorkerState,
};
use crate::internal::producer::{ProducerAction, ProducerEvent, ProducerState};
use crate::internal::shutdown::{CoordinatorState, Phase, ShutdownEvent};
use vstd::prelude::*;

verus! {

/// One thing that happens in a run of the engine: an event, and the task to
/// which it goes.
pub enum EngineEvent {
    Coordinator(ShutdownEvent),
    Producer(ProducerEvent),
    Governor(GovernorEvent),
    Worker(int, WorkerEvent),
}

/// A whole engine as plain values: the coordinator, the tasks that hold its
/// signalers, and how often each task has reported itself killed.
pub struct EngineState {
    pub coordinator: CoordinatorState,
    pub producer: ProducerState,
    pub governor: GovernorState,
    pub workers: Seq<WorkerState>,
    pub producer_killed: nat,
    pub workers_killed: Seq<nat>,
}

impl EngineState {
    /// Whether a token of the drain gate is still held: the coordinator's
    /// own, or that of a task that has not ended. A task gives its token up
    /// when it ends, after its last report.
    pub open spec fn token_held(self) -> bool {
        ||| self.coordinator.token_held
        ||| !self.producer.stopped
        ||| !self.governor.stopped
        ||| exists|i: int|
            0 <= i < self.workers.len() && (#[trigger] self.workers[i]).phase
                != WorkerPhase::Exited
    }

    /// Every task has reported itself killed as often as it should by now:
    /// once if it has ended, and not yet otherwise.
    pub open spec fn wf(self) -> bool {
        &&& self.workers_killed.len() == self.workers.len()
        &&& self.producer_killed == (if self.producer.stopped {
            1nat
        } else {
            0nat
        })
        &&& forall|i: int|
            0 <= i < self.workers.len() ==> #[trigger] self.workers_killed[i] == (if self.workers[i].phase
                == WorkerPhase::Exited {
                1nat
            } else {
                0nat
            })
        &&& self.coordinator.phase == Phase::Triggered || !self.coordinator.token_held
        &&& self.coordinator.phase == Phase::Complete ==> !self.token_held()
    }

    /// Whether `event` can happen now. The drain receiver comes back only
    /// when no token of the drain gate is held, and a worker's event goes to a
    /// worker that there is.
    pub open spec fn admits(self, event: EngineEvent) -> bool {
        match event {
            EngineEvent::Coordinator(ShutdownEvent::Drained) => !self.token_held(),
            EngineEvent::Worker(i, _) => 0 <= i < self.workers.len(),
            _ => true,
        }
    }

    /// The engine after `event`: the task that it goes to takes its step,
    /// and a task that answers with its end reports itself killed.
    pub open spec fn step(self, event: EngineEvent) -> EngineState {
        match event {
            EngineEvent::Coordinator(e) => EngineState {
                coordinator: self.coordinator.step(e),
                ..self
            },
            EngineEvent::Producer(e) => EngineState {
                producer: self.producer.step(e),
                producer_killed: if self.producer.action(e) == ProducerAction::Stop {
                    self.producer_killed + 1
                } else {
                    self.producer_killed
                },
                ..self
            },
            EngineEvent::Governor(e) => EngineState { governor: self.governor.step(e), ..self },
            EngineEvent::Worker(i, e) => EngineState {
                workers: self.workers.update(i, self.workers[i].step(e)),
                workers_killed: if self.workers[i].action(e) is Exit {
                    self.workers_killed.update(i, self.workers_killed[i] + 1)
                } else {
                    self.workers_killed
                },
                ..self
            },
        }
    }

    /// Whether each of `events` can happen in its turn.
    pub open spec fn admits_all(self, events: Seq<EngineEvent>) -> bool
        decreases events.len(),
    {
        if events.len() == 0 {
            true
        } else {
            self.admits(events.first()) && self.step(events.first()).admits_all(
                events.drop_first(),
            )
        }
    }

    /// The engine after all of `events`, in their order.
    pub open spec fn run(self, events: Seq<EngineEvent>) -> EngineState
        decreases events.len(),
    {
        if events.len() == 0 {
            self
        } else {
            self.step(events.first()).run(events.drop_first())
        }
    }

    /// The engine as it is when the shutdown is registered: the coordinator
    /// holds its token, every task is running, and none has reported itself
    /// killed.
    pub open spec fn fresh(self) -> bool {
        &&& self.coordinator.phase == Phase::Triggered
        &&& self.coordinator.token_held
        &&& !self.producer.stopped
        &&& !self.governor.stopped
        &&& self.producer_killed == 0
        &&& self.workers_killed.len() == self.workers.len()
        &&& forall|i: int|
            0 <= i < self.workers.len() ==> (#[trigger] self.workers[i]).phase
                != WorkerPhase::Exited
        &&& forall|i: int| 0 <= i < self.workers.len() ==> #[trigger] self.workers_killed[i] == 0
    }

    /// Every task has ended and has reported itself killed exactly once.
    pub open spec fn drained(self) -> bool {
        &&& self.producer.stopped
        &&& self.governor.stopped
        &&& self.producer_killed == 1
        &&& self.workers_killed.len() == self.workers.len()
        &&& forall|i: int|
            0 <= i < self.workers.len() ==> (#[trigger] self.workers[i]).phase
                == WorkerPhase::Exited
        &&& forall|i: int| 0 <= i < self.workers.len() ==> #[trigger] self.workers_killed[i] == 1
    }
}

/// A step that can happen keeps every task's reports in line with whether
/// it has ended.
pub proof fn lemma_engine_step(state: EngineState, event: EngineEvent)
    requires
        state.wf(),
        state.admits(event),
    ensures
        state.step(event).wf(),
        state.step(event).workers.len() == state.workers.len(),
{
    let next = state.step(event);
    match event {
        EngineEvent::Worker(i, e) => {
            assert forall|k: int| 0 <= k < next.workers.len() implies #[trigger] next.workers_killed[k]
                == (if next.workers[k].phase == WorkerPhase::Exited {
                1nat
            } else {
                0nat
            }) by {
                assert(state.workers_killed[k] == (if state.workers[k].phase
                    == WorkerPhase::Exited {
                    1nat
                } else {
                    0nat
                }));
            }
            if state.coordinator.phase == Phase::Complete {
                assert(state.workers[i].phase == WorkerPhase::Exited);
                assert(next.workers =~= state.workers);
            }
        },
        EngineEvent::Coordinator(e) => {
            if next.coordinator.phase == Phase::Complete {
                assert(next.token_held() == state.token_held());
            }
        },
        EngineEvent::Producer(e) => {},
        EngineEvent::Governor(e) => {},
    }
}

/// An engine is in order when its shutdown is registered.
pub proof fn lemma_fresh_engine(start: EngineState)
    requires
        start.fresh(),
    ensures
        start.wf(),
{
}

/// Steps that can happen keep every task's reports in line with whether it
/// has ended, however many they are.
pub proof fn lemma_engine_run(start: EngineState, events: Seq<EngineEvent>)
    requires
        start.wf(),
        start.admits_all(events),
    ensures
        start.run(events).wf(),
        start.run(events).workers.len() == start.workers.len(),
    decreases events.len(),
{
    if events.len() > 0 {
        lemma_engine_step(start, events.first());
        lemma_engine_run(start.step(events.first()), events.drop_first());
    }
}

/// When the coordinator has returned, every task that held a signaler has
/// ended, and each has reported itself killed exactly once: none twice, and
/// none is missing. This holds of every run in which the drain receiver comes
/// back only when no token of the drain gate is held.
pub proof fn lemma_drain_complete(start: EngineState, events: Seq<EngineEvent>)
    requires
        start.fresh(),
        start.admits_all(events),
    ensures
        start.run(events).coordinator.phase == Phase::Complete ==> start.run(events).drained(),
{
    lemma_fresh_engine(start);
    lemma_engine_run(start, events);
    let end = start.run(events);
    if end.coordinator.phase == Phase::Complete {
        assert forall|i: int| 0 <= i < end.workers.len() implies (#[trigger] end.workers[i]).phase
            == WorkerPhase::Exited by {}
        assert forall|i: int| 0 <= i < end.workers.len() implies #[trigger] end.workers_killed[i]
            == 1 by {
            assert(end.workers[i].phase == WorkerPhase::Exited);
        }
    }
}

} // verus!

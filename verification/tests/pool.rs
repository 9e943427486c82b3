use gunner::internal::consumer::{
    Governor, GovernorAction, GovernorEvent, TestRunner, Worker, WorkerAction, WorkerEvent,
    WorkerPhase, WorkerPool,
};

fn new_governor(total_workers: usize) -> Governor {
    let (tx, _rx) = async_channel::unbounded::<i64>();
    Governor::new(total_workers, tx)
}

#[test]
fn governor_forwards_while_a_worker_is_free() {
    let mut governor = new_governor(2);
    assert_eq!(GovernorAction::Forward, governor.step(GovernorEvent::Token { busy: 0 }));
    assert_eq!(GovernorAction::Forward, governor.step(GovernorEvent::Token { busy: 1 }));
    assert!(!governor.is_stopped());
}

#[test]
fn governor_discards_when_all_workers_are_busy() {
    let mut governor = new_governor(2);
    assert_eq!(GovernorAction::Discard, governor.step(GovernorEvent::Token { busy: 2 }));
    assert_eq!(GovernorAction::Discard, governor.step(GovernorEvent::Token { busy: 3 }));
    assert_eq!(GovernorAction::Forward, governor.step(GovernorEvent::Token { busy: 1 }));
    let mut none = new_governor(0);
    assert_eq!(GovernorAction::Discard, none.step(GovernorEvent::Token { busy: 0 }));
}

#[test]
fn governor_closes_once_when_the_tokens_end() {
    let mut governor = new_governor(1);
    assert_eq!(GovernorAction::Close, governor.step(GovernorEvent::UpstreamClosed));
    assert!(governor.is_stopped());
    assert_eq!(GovernorAction::Nothing, governor.step(GovernorEvent::UpstreamClosed));
    assert_eq!(GovernorAction::Nothing, governor.step(GovernorEvent::Cancelled));
    assert_eq!(GovernorAction::Nothing, governor.step(GovernorEvent::Token { busy: 0 }));
}

#[test]
fn governor_closes_once_when_cancelled() {
    let mut governor = new_governor(1);
    assert_eq!(GovernorAction::Close, governor.step(GovernorEvent::Cancelled));
    assert_eq!(GovernorAction::Nothing, governor.step(GovernorEvent::Cancelled));
}

#[test]
fn worker_handles_a_token_and_reports_it() {
    let mut worker = Worker::new(4);
    assert_eq!(4, worker.index());
    assert_eq!(WorkerPhase::Idle, worker.phase());
    assert_eq!(WorkerAction::Invoke, worker.step(WorkerEvent::Token));
    assert_eq!(WorkerPhase::Busy, worker.phase());
    assert_eq!(
        WorkerAction::Report { index: 4, success: false },
        worker.step(WorkerEvent::Handled { success: false })
    );
    assert_eq!(WorkerPhase::Idle, worker.phase());
    assert_eq!(WorkerAction::Invoke, worker.step(WorkerEvent::Token));
    assert_eq!(
        WorkerAction::Report { index: 4, success: true },
        worker.step(WorkerEvent::Handled { success: true })
    );
}

#[test]
fn worker_exits_once() {
    let mut worker = Worker::new(1);
    assert_eq!(
        WorkerAction::Exit { index: 1, release: false },
        worker.step(WorkerEvent::DispatchClosed)
    );
    assert_eq!(WorkerPhase::Exited, worker.phase());
    assert_eq!(WorkerAction::Nothing, worker.step(WorkerEvent::Cancelled));
    assert_eq!(WorkerAction::Nothing, worker.step(WorkerEvent::DispatchClosed));
    assert_eq!(WorkerAction::Nothing, worker.step(WorkerEvent::Token));
    assert_eq!(WorkerPhase::Exited, worker.phase());
}

#[test]
fn busy_worker_gives_up_its_credit_when_it_exits() {
    let mut worker = Worker::new(0);
    assert_eq!(WorkerAction::Invoke, worker.step(WorkerEvent::Token));
    assert_eq!(
        WorkerAction::Exit { index: 0, release: true },
        worker.step(WorkerEvent::Cancelled)
    );
    assert_eq!(WorkerAction::Nothing, worker.step(WorkerEvent::Handled { success: true }));
}

#[test]
fn worker_ignores_what_does_not_fit_its_phase() {
    let mut worker = Worker::new(0);
    assert_eq!(WorkerAction::Nothing, worker.step(WorkerEvent::Handled { success: true }));
    assert_eq!(WorkerPhase::Idle, worker.phase());
    assert_eq!(WorkerAction::Invoke, worker.step(WorkerEvent::Token));
    assert_eq!(WorkerAction::Nothing, worker.step(WorkerEvent::Token));
    assert_eq!(WorkerPhase::Busy, worker.phase());
}

#[test]
fn pool_counts_its_busy_workers() {
    let mut pool = WorkerPool::new(2);
    assert_eq!(2, pool.total_workers());
    assert_eq!(0, pool.busy_workers());
    assert_eq!(WorkerAction::Invoke, pool.step(0, WorkerEvent::Token));
    assert_eq!(1, pool.busy_workers());
    assert_eq!(WorkerAction::Nothing, pool.step(0, WorkerEvent::Token));
    assert_eq!(1, pool.busy_workers());
    assert_eq!(WorkerAction::Invoke, pool.step(1, WorkerEvent::Token));
    assert_eq!(2, pool.busy_workers());
    assert_eq!(
        WorkerAction::Report { index: 1, success: true },
        pool.step(1, WorkerEvent::Handled { success: true })
    );
    assert_eq!(1, pool.busy_workers());
    assert_eq!(
        WorkerAction::Exit { index: 0, release: true },
        pool.step(0, WorkerEvent::Cancelled)
    );
    assert_eq!(0, pool.busy_workers());
    assert_eq!(
        WorkerAction::Exit { index: 1, release: false },
        pool.step(1, WorkerEvent::Cancelled)
    );
    assert_eq!(0, pool.busy_workers());
}

#[test]
fn pool_has_no_worker_beyond_its_last() {
    let mut pool = WorkerPool::new(2);
    assert_eq!(WorkerAction::Nothing, pool.step(2, WorkerEvent::Token));
    assert_eq!(0, pool.busy_workers());
    let mut empty = WorkerPool::new(0);
    assert_eq!(0, empty.total_workers());
    assert_eq!(WorkerAction::Nothing, empty.step(0, WorkerEvent::Token));
}

#[test]
fn busy_count_never_passes_the_number_of_workers() {
    let mut pool = WorkerPool::new(3);
    let mut governor = new_governor(pool.total_workers());
    let mut forwarded = 0;
    let mut discarded = 0;
    for round in 0..20usize {
        let busy = pool.busy_workers();
        assert!(busy <= 3);
        match governor.step(GovernorEvent::Token { busy }) {
            GovernorAction::Forward => {
                assert!(busy < 3);
                forwarded += 1;
                let free = (0..3)
                    .find(|i| pool.step(*i, WorkerEvent::Token) == WorkerAction::Invoke)
                    .unwrap();
                assert!(free < 3);
            }
            GovernorAction::Discard => {
                assert_eq!(3, busy);
                discarded += 1;
            }
            _ => unreachable!(),
        }
        if round % 5 == 4 {
            pool.step(round % 3, WorkerEvent::Handled { success: true });
        }
    }
    assert_eq!(6, forwarded);
    assert_eq!(14, discarded);
}

#[test]
fn runner_keeps_its_workers_and_handler() {
    let runner = TestRunner::new(2, 7u32);
    assert_eq!(2, runner.concurrency());
    assert_eq!(7u32, *runner.handler());
    let (mut governor, dispatched, workers) = runner.run();
    assert_eq!(GovernorAction::Forward, governor.step(GovernorEvent::Token { busy: 1 }));
    assert_eq!(GovernorAction::Discard, governor.step(GovernorEvent::Token { busy: 2 }));
    assert!(governor.dispatch().try_send(0).is_ok());
    assert_eq!(Ok(0), dispatched.try_recv());
    assert_eq!(2, workers.len());
    assert_eq!(0, workers[0].index());
    assert_eq!(1, workers[1].index());
    assert_eq!(WorkerPhase::Idle, workers[0].phase());
    assert_eq!(WorkerPhase::Idle, workers[1].phase());
}

#[test]
fn governor_closes_the_dispatch_channel_when_it_ends() {
    let (tx, rx) = async_channel::unbounded::<i64>();
    let mut governor = Governor::new(1, tx);
    assert_eq!(GovernorAction::Forward, governor.step(GovernorEvent::Token { busy: 0 }));
    assert!(!rx.is_closed());
    assert_eq!(GovernorAction::Close, governor.step(GovernorEvent::UpstreamClosed));
    assert!(rx.is_closed());
    assert_eq!(Err(async_channel::TryRecvError::Closed), rx.try_recv());

    let (tx, rx) = async_channel::unbounded::<i64>();
    let mut governor = Governor::new(1, tx);
    assert_eq!(GovernorAction::Close, governor.step(GovernorEvent::Cancelled));
    assert!(rx.is_closed());
}

use async_channel::{Receiver, Sender};
use futures::future::{select, select_all, Either};
use gunner::internal::consumer::{
    ConsumerEvents, GovernorAction, GovernorEvent, TestRunner, WorkerAction, WorkerEvent,
};
use gunner::internal::producer::{ProducerAction, ProducerEvent, ProducerEvents, TestTicker};
use gunner::internal::shutdown::{
    CountDownInterrupter, CtrlInterrupter, Phase, Shutdown, ShutdownAction, ShutdownEvent,
    Signaler, SignalerAction, SignalerEvent,
};
use gunner::internal::RunEvents;
use std::future::Future;
use std::pin::Pin;
use std::sync::atomic::{AtomicUsize, Ordering};
use std::sync::{Arc, Mutex};
use std::time::Duration;
use tokio::sync::broadcast::error::TryRecvError as CancelTryRecvError;
use tokio::sync::mpsc::error::TryRecvError as DrainTryRecvError;

type Handler = fn() -> std::io::Result<()>;
type ProducerKilledCallback = Box<dyn Fn() + Send + Sync>;
type WorkerKilledCallback = Box<dyn Fn(usize) + Send + Sync>;
type WorkHandledCallback = Box<dyn Fn(usize, std::io::Result<()>) + Send + Sync>;

struct TestProducerEvents {
    producer_kill_count: Arc<Mutex<u8>>,
}

struct TestConsumerEvents {
    worker_kill_count: Arc<Mutex<u8>>,
    worker_handle_count: Arc<Mutex<Vec<u8>>>,
}

impl TestProducerEvents {
    pub fn new() -> TestProducerEvents {
        TestProducerEvents {
            producer_kill_count: Arc::new(Mutex::new(0)),
        }
    }

    pub fn on_producer_killed(&self) -> Arc<ProducerKilledCallback> {
        let c = self.producer_kill_count.clone();
        Arc::new(Box::new(move || {
            let mut count = c.lock().unwrap();
            *count += 1;
        }))
    }

    pub fn get_producer_killed_count(&self) -> u8 {
        *self.producer_kill_count.lock().unwrap()
    }
}

impl TestConsumerEvents {
    pub fn new() -> TestConsumerEvents {
        TestConsumerEvents {
            worker_kill_count: Arc::new(Mutex::new(0)),
            worker_handle_count: Arc::new(Mutex::new(vec![0; 2])),
        }
    }

    pub fn on_worker_killed(&self) -> Arc<WorkerKilledCallback> {
        let c = self.worker_kill_count.clone();
        Arc::new(Box::new(move |_| {
            let mut count = c.lock().unwrap();
            *count += 1;
        }))
    }

    pub fn get_worker_killed_count(&self) -> u8 {
        *self.worker_kill_count.lock().unwrap()
    }

    pub fn on_worker_handled(&self) -> Arc<WorkHandledCallback> {
        let c = self.worker_handle_count.clone();
        Arc::new(Box::new(move |worker_index, _| {
            let mut wc = c.lock().unwrap();
            wc[worker_index] += 1;
        }))
    }

    pub fn get_worker_handled_counts(&self) -> Vec<u8> {
        self.worker_handle_count.lock().unwrap().clone()
    }
}

async fn recv(signaler: &mut Signaler) {
    if signaler.step(SignalerEvent::WaitRequested) == SignalerAction::ReadChannel {
        let _ = signaler.receiver().recv().await;
        signaler.step(SignalerEvent::BroadcastSeen);
    }
}

async fn run_ticker(
    ticker: &TestTicker,
    tx: Sender<bool>,
    shutdown: &Shutdown<CountDownInterrupter>,
    producer_events: &ProducerEvents<ProducerKilledCallback>,
) -> std::io::Result<()> {
    let ticker_killed = producer_events.on_producer_killed.clone();
    let mut producer = ticker.run(tx);
    let mut interval = tokio::time::interval(Duration::from_millis(producer.period_ms()));
    let mut signaler = shutdown.get_signaler();

    tokio::spawn(async move {
        loop {
            let event = match select(Box::pin(recv(&mut signaler)), Box::pin(interval.tick())).await
            {
                Either::Left(_) => ProducerEvent::Cancelled,
                Either::Right(_) => ProducerEvent::Tick,
            };
            match producer.step(event) {
                ProducerAction::Emit(count) => {
                    for _ in 0..count {
                        producer
                            .tokens()
                            .send(true)
                            .await
                            .expect("error sending on channel");
                    }
                }
                ProducerAction::Stop => {
                    ticker_killed();
                    break;
                }
                ProducerAction::Nothing => break,
            }
        }
    });

    Ok(())
}

async fn run_runner(
    runner: &TestRunner<Handler>,
    rx: Receiver<bool>,
    shutdown: &Shutdown<CountDownInterrupter>,
    consumer_events: &ConsumerEvents<WorkerKilledCallback, WorkHandledCallback>,
) -> std::io::Result<()> {
    let busy_worker = Arc::new(AtomicUsize::new(0));
    let (mut governor, g_rx, workers) = runner.run();

    let mut signaler = shutdown.get_signaler();
    let busy_workers_gov = Arc::clone(&busy_worker);
    tokio::spawn(async move {
        loop {
            let event = match select(Box::pin(rx.recv()), Box::pin(recv(&mut signaler))).await {
                Either::Left((Ok(_), _)) => GovernorEvent::Token {
                    busy: busy_workers_gov.load(Ordering::SeqCst),
                },
                Either::Left((Err(_), _)) => GovernorEvent::UpstreamClosed,
                Either::Right(_) => GovernorEvent::Cancelled,
            };
            match governor.step(event) {
                GovernorAction::Forward => {
                    governor
                        .dispatch()
                        .send(0)
                        .await
                        .expect("error sending on channel");
                }
                GovernorAction::Discard => {}
                GovernorAction::Close => {
                    break;
                }
                GovernorAction::Nothing => break,
            }
        }
    });

    for mut worker in workers {
        let grx = g_rx.clone();
        let mut signaler = shutdown.get_signaler();
        let busy_workers = Arc::clone(&busy_worker);
        let worker_killed = consumer_events.on_worker_killed.clone();
        let work_handled = consumer_events.on_work_handled.clone();
        let h = *runner.handler();

        tokio::spawn(async move {
            loop {
                let event = match select(Box::pin(grx.recv()), Box::pin(recv(&mut signaler))).await
                {
                    Either::Left((Ok(_), _)) => WorkerEvent::Token,
                    Either::Left((Err(_), _)) => WorkerEvent::DispatchClosed,
                    Either::Right(_) => WorkerEvent::Cancelled,
                };
                match worker.step(event) {
                    WorkerAction::Invoke => {
                        busy_workers.fetch_add(1, Ordering::SeqCst);
                        let outcome = h();
                        let success = outcome.is_ok();
                        if let WorkerAction::Report { index, .. } =
                            worker.step(WorkerEvent::Handled { success })
                        {
                            busy_workers.fetch_sub(1, Ordering::SeqCst);
                            work_handled(index, outcome);
                        }
                    }
                    WorkerAction::Exit { index, release } => {
                        if release {
                            busy_workers.fetch_sub(1, Ordering::SeqCst);
                        }
                        worker_killed(index);
                        break;
                    }
                    WorkerAction::Report { .. } | WorkerAction::Nothing => {}
                }
            }
        });
    }

    Ok(())
}

async fn register_shutdown(shutdown: Shutdown<CountDownInterrupter>) {
    let (interrupters, mut coordinator) = shutdown.register_shutdown();
    let mut waits: Vec<Pin<Box<dyn Future<Output = std::io::Result<()>>>>> = Vec::new();
    for interrupter in interrupters.iter() {
        let ms = interrupter.ms();
        waits.push(Box::pin(async move {
            Ok(tokio::time::sleep(Duration::from_millis(ms)).await)
        }));
    }

    loop {
        assert!(coordinator.racing() > 0);
        let (resolved, _index, remaining) = select_all(waits).await;
        waits = remaining;
        let event = match resolved {
            Ok(()) => ShutdownEvent::InterrupterFired,
            Err(_) => ShutdownEvent::InterrupterFailed,
        };
        if coordinator.step(event) == ShutdownAction::AwaitDrain {
            break;
        }
    }

    let _ = coordinator.waiter().recv().await;
    assert_eq!(ShutdownAction::Return, coordinator.step(ShutdownEvent::Drained));
}

fn hello() -> std::io::Result<()> {
    println!("Hello, world!");
    Ok(())
}

fn run_engine(rate_micros: u64, processor_count: u8) -> (u8, u8, Vec<u8>) {
    let runtime = tokio::runtime::Builder::new_current_thread()
        .enable_time()
        .build()
        .unwrap();
    runtime.block_on(async {
        let handler: Handler = hello;

        let ticker = TestTicker::new(rate_micros);

        let runner = TestRunner::new(processor_count, handler);

        let count_down_interrupter = CountDownInterrupter::new(1_000);

        let shutdown = Shutdown::new(vec![count_down_interrupter]);

        let test_producer_events = TestProducerEvents::new();
        let test_consumer_events = TestConsumerEvents::new();

        let producer_events = ProducerEvents {
            on_producer_killed: test_producer_events.on_producer_killed(),
        };

        let consumer_events = ConsumerEvents {
            on_worker_killed: test_consumer_events.on_worker_killed(),
            on_work_handled: test_consumer_events.on_worker_handled(),
        };

        let (tx, rx) = async_channel::unbounded::<bool>();

        run_ticker(&ticker, tx, &shutdown, &producer_events)
            .await
            .expect("oops something went wrong, ticker.run");

        run_runner(&runner, rx, &shutdown, &consumer_events)
            .await
            .expect("oops something went wrong, runner.run");

        register_shutdown(shutdown).await;

        (
            test_producer_events.get_producer_killed_count(),
            test_consumer_events.get_worker_killed_count(),
            test_consumer_events.get_worker_handled_counts(),
        )
    })
}

#[test]
fn graceful_shutdown() {
    let processor_count: u8 = 2;

    let (actual_producer_count, actual_worker_count, _) = run_engine(1_000_000, processor_count);

    assert_eq!(1, actual_producer_count, "producer count");
    assert_eq!(processor_count, actual_worker_count, "worker count");
}

#[test]
fn worker_handled_count() {
    let (_, _, actual_worker_handled_count) = run_engine(10_000_000, 2);
    let sum: i32 = actual_worker_handled_count.iter().map(|s| *s as i32).sum();

    assert!((10i32..=12i32).contains(&sum), "handled {}", sum);
}

#[test]
fn zero_rate_handles_nothing_and_still_drains() {
    let (producer_killed, worker_killed, handled) = run_engine(0, 2);
    assert_eq!(1, producer_killed);
    assert_eq!(2, worker_killed);
    assert_eq!(vec![0, 0], handled);
}

#[test]
fn count_down_keeps_its_time() {
    assert_eq!(5_000, CountDownInterrupter::new(5_000).ms());
    assert_eq!(0, CountDownInterrupter::new(0).ms());
    let _ = CtrlInterrupter::new();
}

#[test]
fn new_signaler_is_not_cancelled() {
    let shutdown: Shutdown<CountDownInterrupter> = Shutdown::new(vec![]);
    let signaler = shutdown.get_signaler();
    assert!(!signaler.is_shutdown());
}

#[test]
fn signaler_reads_the_channel_only_until_it_has_seen_the_cancellation() {
    let shutdown: Shutdown<CountDownInterrupter> = Shutdown::new(vec![]);
    let mut signaler = shutdown.get_signaler();
    assert_eq!(SignalerAction::ReadChannel, signaler.step(SignalerEvent::WaitRequested));
    assert!(!signaler.is_shutdown());
    assert_eq!(SignalerAction::ReadChannel, signaler.step(SignalerEvent::WaitRequested));
    assert_eq!(SignalerAction::ReturnNow, signaler.step(SignalerEvent::BroadcastSeen));
    assert!(signaler.is_shutdown());
    for _ in 0..10 {
        assert_eq!(SignalerAction::ReturnNow, signaler.step(SignalerEvent::WaitRequested));
        assert!(signaler.is_shutdown());
    }
    assert_eq!(SignalerAction::ReturnNow, signaler.step(SignalerEvent::BroadcastSeen));
    assert!(signaler.is_shutdown());
}

#[test]
fn cancellation_reaches_every_signaler_once() {
    let shutdown = Shutdown::new(vec![CountDownInterrupter::new(1), CountDownInterrupter::new(2)]);
    let mut first = shutdown.get_signaler();
    let mut second = shutdown.get_signaler();
    assert_eq!(Err(CancelTryRecvError::Empty), first.receiver().try_recv());

    let (interrupters, mut coordinator) = shutdown.register_shutdown();
    assert_eq!(2, interrupters.len());
    assert_eq!(1, interrupters[0].ms());
    assert_eq!(2, interrupters[1].ms());
    assert_eq!(Phase::Triggered, coordinator.phase());
    assert_eq!(2, coordinator.racing());
    assert_eq!(Err(CancelTryRecvError::Empty), first.receiver().try_recv());

    assert_eq!(ShutdownAction::AwaitDrain, coordinator.step(ShutdownEvent::InterrupterFired));
    assert_eq!(Phase::Draining, coordinator.phase());
    assert_eq!(0, coordinator.racing());
    assert_eq!(Ok(()), first.receiver().try_recv());
    assert_eq!(Ok(()), second.receiver().try_recv());

    assert_eq!(ShutdownAction::Nothing, coordinator.step(ShutdownEvent::InterrupterFired));
    assert_eq!(ShutdownAction::Nothing, coordinator.step(ShutdownEvent::InterrupterFailed));
    assert_eq!(Phase::Draining, coordinator.phase());
    assert_eq!(Err(CancelTryRecvError::Empty), first.receiver().try_recv());
    assert_eq!(Err(CancelTryRecvError::Empty), second.receiver().try_recv());
}

#[test]
fn drain_waits_for_every_signaler() {
    let shutdown = Shutdown::new(vec![CountDownInterrupter::new(1)]);
    let first = shutdown.get_signaler();
    let second = shutdown.get_signaler();
    let (_, mut coordinator) = shutdown.register_shutdown();
    assert_eq!(Err(DrainTryRecvError::Empty), coordinator.waiter().try_recv());

    assert_eq!(ShutdownAction::AwaitDrain, coordinator.step(ShutdownEvent::InterrupterFired));
    assert_eq!(Err(DrainTryRecvError::Empty), coordinator.waiter().try_recv());
    drop(first);
    assert_eq!(Err(DrainTryRecvError::Empty), coordinator.waiter().try_recv());
    drop(second);
    assert_eq!(Err(DrainTryRecvError::Disconnected), coordinator.waiter().try_recv());

    assert_eq!(ShutdownAction::Return, coordinator.step(ShutdownEvent::Drained));
    assert_eq!(Phase::Complete, coordinator.phase());
    assert_eq!(ShutdownAction::Nothing, coordinator.step(ShutdownEvent::Drained));
    assert_eq!(ShutdownAction::Nothing, coordinator.step(ShutdownEvent::InterrupterFired));
    assert_eq!(Phase::Complete, coordinator.phase());
}

#[test]
fn coordinator_keeps_its_token_until_it_broadcasts() {
    let shutdown = Shutdown::new(vec![CountDownInterrupter::new(1)]);
    let signaler = shutdown.get_signaler();
    let (_, mut coordinator) = shutdown.register_shutdown();
    drop(signaler);
    assert_eq!(Err(DrainTryRecvError::Empty), coordinator.waiter().try_recv());
    assert_eq!(ShutdownAction::Nothing, coordinator.step(ShutdownEvent::Drained));
    assert_eq!(Phase::Triggered, coordinator.phase());
}

#[test]
fn broadcast_without_signalers_is_no_error() {
    let shutdown = Shutdown::new(vec![CountDownInterrupter::new(1)]);
    let (_, mut coordinator) = shutdown.register_shutdown();
    assert_eq!(ShutdownAction::AwaitDrain, coordinator.step(ShutdownEvent::InterrupterFired));
    assert_eq!(Err(DrainTryRecvError::Disconnected), coordinator.waiter().try_recv());
    assert_eq!(ShutdownAction::Return, coordinator.step(ShutdownEvent::Drained));
}

#[test]
fn failed_interrupter_leaves_the_race() {
    let shutdown = Shutdown::new(vec![
        CountDownInterrupter::new(1),
        CountDownInterrupter::new(2),
        CountDownInterrupter::new(3),
    ]);
    let mut signaler = shutdown.get_signaler();
    let (_, mut coordinator) = shutdown.register_shutdown();
    assert_eq!(3, coordinator.racing());
    assert_eq!(ShutdownAction::KeepRacing, coordinator.step(ShutdownEvent::InterrupterFailed));
    assert_eq!(2, coordinator.racing());
    assert_eq!(Phase::Triggered, coordinator.phase());
    assert_eq!(Err(CancelTryRecvError::Empty), signaler.receiver().try_recv());
    assert_eq!(ShutdownAction::KeepRacing, coordinator.step(ShutdownEvent::InterrupterFailed));
    assert_eq!(ShutdownAction::KeepRacing, coordinator.step(ShutdownEvent::InterrupterFailed));
    assert_eq!(0, coordinator.racing());
    assert_eq!(ShutdownAction::KeepRacing, coordinator.step(ShutdownEvent::InterrupterFailed));
    assert_eq!(0, coordinator.racing());
    assert_eq!(Phase::Triggered, coordinator.phase());
    assert_eq!(Err(CancelTryRecvError::Empty), signaler.receiver().try_recv());
}

#[test]
fn run_events_hold_their_callbacks() {
    let killed = Arc::new(AtomicUsize::new(0));
    let ticker_count = killed.clone();
    let processor_count = killed.clone();
    let events = RunEvents {
        on_ticker_killed: Arc::new(move || {
            ticker_count.fetch_add(1, Ordering::SeqCst);
        }),
        on_processor_killed: Arc::new(move || {
            processor_count.fetch_add(10, Ordering::SeqCst);
        }),
    };
    (events.on_ticker_killed)();
    (events.on_processor_killed)();
    (events.on_processor_killed)();
    assert_eq!(21, killed.load(Ordering::SeqCst));
}

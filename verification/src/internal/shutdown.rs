use crate::internal::trace::lemma_contains_split;
use tokio::sync::broadcast;
use tokio::sync::mpsc;
use vstd::prelude::*;

verus! {

/// `tokio::sync::broadcast::Sender`, the sending side of the cancellation
/// broadcast: a handle with nothing known of what lies behind it.
#[verifier::external_type_specification]
#[verifier::external_body]
#[verifier::reject_recursive_types(T)]
pub struct ExBroadcastSender<T>(broadcast::Sender<T>);

/// `tokio::sync::broadcast::Receiver`, one subscription to the cancellation
/// broadcast: a handle with nothing known of what lies behind it.
#[verifier::external_type_specification]
#[verifier::external_body]
#[verifier::reject_recursive_types(T)]
pub struct ExBroadcastReceiver<T>(broadcast::Receiver<T>);

/// `tokio::sync::broadcast::error::SendError`, which hands back a value that
/// no receiver was left to take.
#[verifier::external_type_specification]
#[verifier::external_body]
#[verifier::reject_recursive_types(T)]
pub struct ExBroadcastSendError<T>(broadcast::error::SendError<T>);

/// `tokio::sync::mpsc::Sender`, one token of the drain gate: a handle with
/// nothing known of what lies behind it.
#[verifier::external_type_specification]
#[verifier::external_body]
#[verifier::reject_recursive_types(T)]
pub struct ExGateSender<T>(mpsc::Sender<T>);

/// `tokio::sync::mpsc::Receiver`, the receiving side of the drain gate: a
/// handle with nothing known of what lies behind it.
#[verifier::external_type_specification]
#[verifier::external_body]
#[verifier::reject_recursive_types(T)]
pub struct ExGateReceiver<T>(mpsc::Receiver<T>);

/// `tokio::sync::broadcast::channel`: it panics on a capacity of zero or of
/// more than half of `usize::MAX`, and it sets aside room for that many
/// messages at once, so the precondition keeps the capacity small. Nothing is
/// claimed of the two handles that it returns.
pub assume_specification<T: Clone>[ broadcast::channel::<T> ](capacity: usize) -> (pair: (
    broadcast::Sender<T>,
    broadcast::Receiver<T>,
))
    requires
        0 < capacity <= 0x1_0000,
;

/// `tokio::sync::mpsc::channel`: it panics on a buffer of zero or of more
/// permits than its semaphore takes, an eighth of `usize::MAX`, which the
/// precondition leaves out. Nothing is claimed of the two handles that it
/// returns.
pub assume_specification<T>[ mpsc::channel::<T> ](buffer: usize) -> (pair: (
    mpsc::Sender<T>,
    mpsc::Receiver<T>,
))
    requires
        0 < buffer <= usize::MAX / 8,
;

/// `tokio::sync::broadcast::Sender::subscribe`: a new receiving handle, of
/// which nothing is claimed. It panics once a quarter of `usize::MAX`
/// receivers are subscribed at the same time, more than fit into memory,
/// which no precondition here can speak of.
pub assume_specification<T>[ broadcast::Sender::<T>::subscribe ](
    sender: &broadcast::Sender<T>,
) -> (receiver: broadcast::Receiver<T>)
;

/// `tokio::sync::broadcast::Sender::send`: on success it returns the number
/// of subscribed receivers, and it succeeds only while there is one.
pub assume_specification<T>[ broadcast::Sender::<T>::send ](
    sender: &broadcast::Sender<T>,
    value: T,
) -> (sent: Result<usize, broadcast::error::SendError<T>>)
    ensures
        sent matches Ok(receivers) ==> receivers > 0,
;

/// `Clone::clone` of `tokio::sync::mpsc::Sender`: one more sending handle to
/// the same channel. All that a sender holds is its pointer to the channel,
/// and the copy holds the same pointer, so as values the two are equal.
pub assume_specification<T>[ <mpsc::Sender<T> as Clone>::clone ](
    sender: &mpsc::Sender<T>,
) -> (copy: mpsc::Sender<T>)
    ensures
        copy == *sender,
;

/// The interrupter that fires when the operator interrupts the process.
pub struct CtrlInterrupter {}

impl CtrlInterrupter {
    /// The one interrupter of this kind: it holds nothing.
    pub fn new() -> (interrupter: CtrlInterrupter)
        ensures
            interrupter == (CtrlInterrupter {  }),
    {
        CtrlInterrupter {  }
    }
}

/// The interrupter that fires when a fixed time has passed.
pub struct CountDownInterrupter {
    ms: u64,
}

impl CountDownInterrupter {
    /// The time to count down, in milliseconds.
    pub closed spec fn millis(&self) -> u64 {
        self.ms
    }

    /// An interrupter that fires `ms` milliseconds after its wait began.
    pub fn new(ms: u64) -> (interrupter: CountDownInterrupter)
        ensures
            interrupter.millis() == ms,
    {
        CountDownInterrupter { ms }
    }

    /// The time to count down, in milliseconds.
    pub fn ms(&self) -> (ms: u64)
        ensures
            ms == self.millis(),
    {
        self.ms
    }
}

/// What can happen to a signaler.
#[derive(Clone, Copy, Debug, PartialEq, Eq, Structural)]
pub enum SignalerEvent {
    /// The task asks to wait for the cancellation.
    WaitRequested,
    /// The read of the broadcast channel came back.
    BroadcastSeen,
}

/// What a signaler asks for in answer to an event.
#[derive(Clone, Copy, Debug, PartialEq, Eq, Structural)]
pub enum SignalerAction {
    /// The cancellation has been seen: return at once.
    ReturnNow,
    /// Read the broadcast channel, and hand back `BroadcastSeen` when the
    /// read has come back.
    ReadChannel,
}

/// The answer of a signaler to `event`, by whether it has seen the
/// cancellation: only one that has not seen it reads the channel.
pub open spec fn signaler_action(cancelled: bool, event: SignalerEvent) -> SignalerAction {
    if !cancelled && event == SignalerEvent::WaitRequested {
        SignalerAction::ReadChannel
    } else {
        SignalerAction::ReturnNow
    }
}

/// Whether a signaler has seen the cancellation after `event`.
pub open spec fn signaler_step(cancelled: bool, event: SignalerEvent) -> bool {
    cancelled || event == SignalerEvent::BroadcastSeen
}

/// Whether a signaler has seen the cancellation after all of `events`.
pub open spec fn signaler_run(cancelled: bool, events: Seq<SignalerEvent>) -> bool
    decreases events.len(),
{
    if events.len() == 0 {
        cancelled
    } else {
        signaler_run(signaler_step(cancelled, events.first()), events.drop_first())
    }
}

/// How many of `events` are answered by `ReadChannel`.
pub open spec fn signaler_reads(cancelled: bool, events: Seq<SignalerEvent>) -> nat
    decreases events.len(),
{
    if events.len() == 0 {
        0
    } else {
        let now: nat = if signaler_action(cancelled, events.first())
            == SignalerAction::ReadChannel {
            1
        } else {
            0
        };
        now + signaler_reads(signaler_step(cancelled, events.first()), events.drop_first())
    }
}

/// A signaler that has seen the cancellation says so ever after, whatever it
/// is asked and however often, and never reads the channel again.
pub proof fn lemma_signaler_stays_cancelled(events: Seq<SignalerEvent>)
    ensures
        signaler_run(true, events),
        signaler_reads(true, events) == 0,
    decreases events.len(),
{
    if events.len() > 0 {
        lemma_signaler_stays_cancelled(events.drop_first());
    }
}

/// A task's handle to the shutdown: its subscription to the cancellation,
/// and one token of the drain gate, which it gives up when it is dropped.
pub struct Signaler {
    is_shutdown: bool,
    receiver: broadcast::Receiver<()>,
    sender_waiter: mpsc::Sender<()>,
}

impl Signaler {
    /// Whether the signaler has seen the cancellation.
    pub closed spec fn cancelled(&self) -> bool {
        self.is_shutdown
    }

    /// A signaler that has not seen the cancellation yet.
    pub fn new(receiver: broadcast::Receiver<()>, sender_waiter: mpsc::Sender<()>) -> (signaler:
        Signaler)
        ensures
            !signaler.cancelled(),
            signaler.subscription() == receiver,
            signaler.token() == sender_waiter,
    {
        Signaler { is_shutdown: false, receiver, sender_waiter }
    }

    /// Whether the signaler has seen the cancellation.
    pub fn is_shutdown(&self) -> (cancelled: bool)
        ensures
            cancelled == self.cancelled(),
    {
        self.is_shutdown
    }

    /// Takes one event and says what to do about it.
    pub fn step(&mut self, event: SignalerEvent) -> (action: SignalerAction)
        ensures
            action == signaler_action(old(self).cancelled(), event),
            final(self).cancelled() == signaler_step(old(self).cancelled(), event),
            final(self).subscription() == old(self).subscription(),
            final(self).token() == old(self).token(),
    {
        match event {
            SignalerEvent::WaitRequested => {
                if self.is_shutdown {
                    SignalerAction::ReturnNow
                } else {
                    SignalerAction::ReadChannel
                }
            },
            SignalerEvent::BroadcastSeen => {
                self.is_shutdown = true;
                SignalerAction::ReturnNow
            },
        }
    }

    /// The signaler's subscription to the cancellation.
    pub closed spec fn subscription(&self) -> broadcast::Receiver<()> {
        self.receiver
    }

    /// The signaler's token of the drain gate.
    pub closed spec fn token(&self) -> mpsc::Sender<()> {
        self.sender_waiter
    }

    /// The subscription, for the one read that `step` asks for: whatever is
    /// done to it, the signaler keeps its token and what it has seen.
    pub fn receiver(&mut self) -> (receiver: &mut broadcast::Receiver<()>)
        ensures
            *receiver == old(self).subscription(),
            final(self).subscription() == *final(receiver),
            final(self).cancelled() == old(self).cancelled(),
            final(self).token() == old(self).token(),
    {
        &mut self.receiver
    }
}

/// The phases of a coordinator whose shutdown has been registered, in the
/// order in which it passes through them. Before that it is armed: the
/// `Shutdown` itself.
#[derive(Clone, Copy, Debug, PartialEq, Eq, Structural)]
pub enum Phase {
    /// The interrupters are racing.
    Triggered,
    /// The cancellation has been broadcast; the tasks are ending.
    Draining,
    /// Every task has given up its token.
    Complete,
}

/// What can happen to a coordinator.
#[derive(Clone, Copy, Debug, PartialEq, Eq, Structural)]
pub enum ShutdownEvent {
    /// The wait of an interrupter came back without an error.
    InterrupterFired,
    /// The wait of an interrupter came back with an error.
    InterrupterFailed,
    /// The drain receiver came back: no token is left.
    Drained,
}

/// What a coordinator asks for in answer to an event.
#[derive(Clone, Copy, Debug, PartialEq, Eq, Structural)]
pub enum ShutdownAction {
    /// Go on waiting for the interrupters that are left.
    KeepRacing,
    /// The cancellation has just been broadcast and the coordinator's own
    /// token given up: wait for the drain receiver.
    AwaitDrain,
    /// Return to the caller.
    Return,
    /// Nothing to do.
    Nothing,
}

/// A coordinator as plain values.
pub struct CoordinatorState {
    pub phase: Phase,
    /// The interrupters still in the race.
    pub racing: nat,
    /// Whether the coordinator still holds its own token of the drain gate.
    pub token_held: bool,
}

impl CoordinatorState {
    /// The action that answers `event`.
    pub open spec fn action(self, event: ShutdownEvent) -> ShutdownAction {
        match (self.phase, event) {
            (Phase::Triggered, ShutdownEvent::InterrupterFired) => ShutdownAction::AwaitDrain,
            (Phase::Triggered, ShutdownEvent::InterrupterFailed) => ShutdownAction::KeepRacing,
            (Phase::Draining, ShutdownEvent::Drained) => ShutdownAction::Return,
            _ => ShutdownAction::Nothing,
        }
    }

    /// The state after `event`. The first interrupter to fire ends the race;
    /// one that fails leaves it, as if it never fired.
    pub open spec fn step(self, event: ShutdownEvent) -> CoordinatorState {
        match self.action(event) {
            ShutdownAction::AwaitDrain => CoordinatorState {
                phase: Phase::Draining,
                racing: 0,
                token_held: false,
            },
            ShutdownAction::KeepRacing => CoordinatorState {
                phase: Phase::Triggered,
                racing: if self.racing > 0 {
                    (self.racing - 1) as nat
                } else {
                    0
                },
                token_held: self.token_held,
            },
            ShutdownAction::Return => CoordinatorState {
                phase: Phase::Complete,
                racing: self.racing,
                token_held: self.token_held,
            },
            ShutdownAction::Nothing => self,
        }
    }

    /// The state after all of `events`, in their order.
    pub open spec fn run(self, events: Seq<ShutdownEvent>) -> CoordinatorState
        decreases events.len(),
    {
        if events.len() == 0 {
            self
        } else {
            self.step(events.first()).run(events.drop_first())
        }
    }

    /// How many of `events` are answered by a broadcast of the cancellation.
    pub open spec fn broadcasts(self, events: Seq<ShutdownEvent>) -> nat
        decreases events.len(),
    {
        if events.len() == 0 {
            0
        } else {
            let now: nat = if self.action(events.first()) == ShutdownAction::AwaitDrain {
                1
            } else {
                0
            };
            now + self.step(events.first()).broadcasts(events.drop_first())
        }
    }

    /// How many of `events` are answered by `Return`.
    pub open spec fn completions(self, events: Seq<ShutdownEvent>) -> nat
        decreases events.len(),
    {
        if events.len() == 0 {
            0
        } else {
            let now: nat = if self.action(events.first()) == ShutdownAction::Return {
                1
            } else {
                0
            };
            now + self.step(events.first()).completions(events.drop_first())
        }
    }
}

/// Whatever happens to a coordinator, it broadcasts the cancellation at most
/// once: exactly once from the race if an interrupter fires, and never again
/// once it is draining or complete.
pub proof fn lemma_broadcast_at_most_once(state: CoordinatorState, events: Seq<ShutdownEvent>)
    ensures
        state.broadcasts(events) <= 1,
        state.phase != Phase::Triggered ==> state.broadcasts(events) == 0,
        state.phase == Phase::Triggered ==> state.broadcasts(events) == (if events.contains(
            ShutdownEvent::InterrupterFired,
        ) {
            1nat
        } else {
            0nat
        }),
    decreases events.len(),
{
    if events.len() > 0 {
        lemma_contains_split(events, ShutdownEvent::InterrupterFired);
        lemma_broadcast_at_most_once(state.step(events.first()), events.drop_first());
    }
}

/// A coordinator returns at most once. One that is draining completes
/// exactly when the drain receiver comes back; one that started in the race
/// has completed only if it has broadcast the cancellation, given up its own
/// token, and seen the drain receiver come back after that.
pub proof fn lemma_return_after_drain(state: CoordinatorState, events: Seq<ShutdownEvent>)
    requires
        state.phase == Phase::Triggered || !state.token_held,
    ensures
        state.completions(events) <= 1,
        state.run(events).phase == Phase::Complete <==> state.phase == Phase::Complete
            || state.completions(events) == 1,
        state.phase == Phase::Complete ==> state.completions(events) == 0,
        state.phase == Phase::Draining ==> state.completions(events) == (if events.contains(
            ShutdownEvent::Drained,
        ) {
            1nat
        } else {
            0nat
        }),
        state.phase == Phase::Triggered && state.completions(events) == 1 ==> {
            &&& state.broadcasts(events) == 1
            &&& events.contains(ShutdownEvent::Drained)
        },
        state.run(events).phase != Phase::Triggered ==> !state.run(events).token_held,
    decreases events.len(),
{
    if events.len() > 0 {
        lemma_contains_split(events, ShutdownEvent::Drained);
        lemma_broadcast_at_most_once(state.step(events.first()), events.drop_first());
        lemma_return_after_drain(state.step(events.first()), events.drop_first());
    }
}

/// The shutdown coordinator while it is armed: tasks ask it for signalers,
/// and registering the shutdown uses it up.
pub struct Shutdown<I> {
    sender: broadcast::Sender<()>,
    waiter: mpsc::Receiver<()>,
    sender_waiter: mpsc::Sender<()>,
    interrupters: Vec<I>,
}

impl<I> Shutdown<I> {
    /// The interrupters that will race, in their order.
    pub closed spec fn interrupters(&self) -> Seq<I> {
        self.interrupters@
    }

    /// An armed coordinator for `interrupters`, with a fresh cancellation
    /// broadcast and a fresh drain gate of which it holds one token.
    pub fn new(interrupters: Vec<I>) -> (shutdown: Shutdown<I>)
        ensures
            shutdown.interrupters() == interrupters@,
    {
        let (send, recv) = mpsc::channel::<()>(1);
        let (tx, _) = broadcast::channel::<()>(32);
        Shutdown { sender: tx, waiter: recv, sender_waiter: send, interrupters }
    }

    /// The coordinator's own token of the drain gate, of which every
    /// signaler holds a copy.
    pub closed spec fn drain_token(&self) -> mpsc::Sender<()> {
        self.sender_waiter
    }

    /// A signaler for one task: subscribed to the cancellation, holding one
    /// more token of the coordinator's drain gate, and not cancelled yet.
    pub fn get_signaler(&self) -> (signaler: Signaler)
        ensures
            !signaler.cancelled(),
            signaler.token() == self.drain_token(),
    {
        Signaler::new(self.sender.subscribe(), self.sender_waiter.clone())
    }

    /// Starts the shutdown: hands out the interrupters to race and the
    /// coordinator that decides on what comes back from them.
    pub fn register_shutdown(self) -> (race: (Vec<I>, Coordinator))
        ensures
            race.0@ == self.interrupters(),
            race.1@ == (CoordinatorState {
                phase: Phase::Triggered,
                racing: self.interrupters().len(),
                token_held: true,
            }),
    {
        let racing: usize = self.interrupters.len();
        let coordinator = Coordinator {
            sender: self.sender,
            waiter: self.waiter,
            sender_waiter: Some(self.sender_waiter),
            phase: Phase::Triggered,
            racing,
        };
        (self.interrupters, coordinator)
    }
}

/// The shutdown coordinator once its shutdown is registered. Whoever drives
/// it waits for the interrupters, then for the drain receiver, hands `step`
/// what came back, and does what the answer asks.
pub struct Coordinator {
    sender: broadcast::Sender<()>,
    waiter: mpsc::Receiver<()>,
    sender_waiter: Option<mpsc::Sender<()>>,
    phase: Phase,
    racing: usize,
}

impl View for Coordinator {
    type V = CoordinatorState;

    closed spec fn view(&self) -> CoordinatorState {
        CoordinatorState {
            phase: self.phase,
            racing: self.racing as nat,
            token_held: self.sender_waiter is Some,
        }
    }
}

impl Coordinator {
    /// Where the coordinator stands.
    pub fn phase(&self) -> (phase: Phase)
        ensures
            phase == self@.phase,
    {
        self.phase
    }

    /// The number of interrupters still in the race.
    pub fn racing(&self) -> (racing: usize)
        ensures
            racing == self@.racing,
    {
        self.racing
    }

    /// Takes one event and says what to do about it. When the first
    /// interrupter fires it broadcasts the cancellation, whether or not a
    /// signaler is left to hear it, and gives up the coordinator's own token.
    pub fn step(&mut self, event: ShutdownEvent) -> (action: ShutdownAction)
        ensures
            action == old(self)@.action(event),
            final(self)@ == old(self)@.step(event),
            final(self).gate() == old(self).gate(),
    {
        match self.phase {
            Phase::Triggered => match event {
                ShutdownEvent::InterrupterFired => {
                    let _ = self.sender.send(());
                    self.sender_waiter = None;
                    self.racing = 0;
                    self.phase = Phase::Draining;
                    ShutdownAction::AwaitDrain
                },
                ShutdownEvent::InterrupterFailed => {
                    if self.racing > 0 {
                        self.racing = self.racing - 1;
                    }
                    ShutdownAction::KeepRacing
                },
                ShutdownEvent::Drained => ShutdownAction::Nothing,
            },
            Phase::Draining => match event {
                ShutdownEvent::Drained => {
                    self.phase = Phase::Complete;
                    ShutdownAction::Return
                },
                _ => ShutdownAction::Nothing,
            },
            Phase::Complete => ShutdownAction::Nothing,
        }
    }

    /// The receiving side of the drain gate.
    pub closed spec fn gate(&self) -> mpsc::Receiver<()> {
        self.waiter
    }

    /// The drain receiver, for the one wait that `step` asks for: whatever
    /// is done to it, the coordinator stands where it stood.
    pub fn waiter(&mut self) -> (waiter: &mut mpsc::Receiver<()>)
        ensures
            *waiter == old(self).gate(),
            final(self).gate() == *final(waiter),
            final(self)@ == old(self)@,
    {
        &mut self.waiter
    }
}

} // verus!

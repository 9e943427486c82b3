use crate::internal::trace::lemma_contains_split;
use async_channel::Sender;
use std::sync::Arc;
use vstd::prelude::*;

verus! {

/// Accumulator units that make up one token: a tick's increment is kept to
/// seven decimal places.
pub const UNITS_PER_TOKEN: u64 = 10_000_000;

/// The rate of one event per second, in millionths of an event per second.
pub const ONE_PER_SEC: u64 = 1_000_000;

/// Ticks per second while the rate is at least one event per second.
pub const TICKS_PER_SEC: u64 = 10;

/// The integer nearest to `a / b`, a tie going upward.
pub open spec fn nearest_quotient(a: nat, b: nat) -> nat
    recommends
        b > 0,
{
    (2 * a + b) / (2 * b)
}

/// Whether `q` lies within a half of `a / b`: `q - 1/2 <= a / b < q + 1/2`.
pub open spec fn is_nearest(q: nat, a: nat, b: nat) -> bool {
    2 * q * b <= 2 * a + b && 2 * a + b < 2 * (q + 1) * b
}

/// `nearest_quotient(a, b)` is the one integer within a half of `a / b`.
pub proof fn lemma_nearest_quotient(a: nat, b: nat)
    requires
        b > 0,
    ensures
        is_nearest(nearest_quotient(a, b), a, b),
        forall|q: nat| #[trigger] is_nearest(q, a, b) ==> q == nearest_quotient(a, b),
{
    let n = 2 * a + b;
    let d = 2 * b;
    let t = nearest_quotient(a, b);
    assert(t == n / d);
    assert(d * t <= n && n < d * (t + 1)) by (nonlinear_arith)
        requires
            d > 0,
            t == n / d,
    ;
    assert(2 * t * b == d * t) by (nonlinear_arith)
        requires
            d == 2 * b,
    ;
    assert(2 * (t + 1) * b == d * (t + 1)) by (nonlinear_arith)
        requires
            d == 2 * b,
    ;
    assert forall|q: nat| #[trigger] is_nearest(q, a, b) implies q == t by {
        assert(q == n / d) by (nonlinear_arith)
            requires
                d > 0,
                2 * q * b <= n,
                n < 2 * (q + 1) * b,
                d == 2 * b,
        ;
    }
}

/// What a rate calculator holds, as numbers: the regime it works in and how
/// far it has come.
pub enum Regime {
    /// At least one event per second, ticked ten times a second: `carry` is
    /// the fraction of a token carried over and `per_tick` what a tick adds,
    /// both in ten-millionths of a token.
    Regular { carry: nat, per_tick: nat },
    /// Less than one event per second, ticked once a second: one token each
    /// time `counter` reaches `threshold`. A threshold of zero is never
    /// reached.
    Sparse { counter: nat, threshold: nat },
}

impl Regime {
    /// The carry is less than a token; the counter is below its threshold.
    pub open spec fn wf(self) -> bool {
        match self {
            Regime::Regular { carry, per_tick } => carry < UNITS_PER_TOKEN,
            Regime::Sparse { counter, threshold } => if threshold == 0 {
                counter == 0
            } else {
                counter < threshold
            },
        }
    }

    /// The regime of a fresh calculator for `rate_micros` millionths of an
    /// event per second.
    pub open spec fn for_rate(rate_micros: nat) -> Regime {
        if rate_micros >= ONE_PER_SEC {
            Regime::Regular { carry: 0, per_tick: rate_micros }
        } else if rate_micros == 0 {
            Regime::Sparse { counter: 0, threshold: 0 }
        } else {
            Regime::Sparse { counter: 0, threshold: nearest_quotient(ONE_PER_SEC as nat, rate_micros) }
        }
    }

    /// The tokens that the next tick emits.
    pub open spec fn emit(self) -> nat {
        match self {
            Regime::Regular { carry, per_tick } => (carry + per_tick) / (UNITS_PER_TOKEN as nat),
            Regime::Sparse { counter, threshold } => if threshold > 0 && counter + 1 == threshold {
                1
            } else {
                0
            },
        }
    }

    /// The regime after the next tick.
    pub open spec fn next(self) -> Regime {
        match self {
            Regime::Regular { carry, per_tick } => Regime::Regular {
                carry: (carry + per_tick) % (UNITS_PER_TOKEN as nat),
                per_tick,
            },
            Regime::Sparse { counter, threshold } => Regime::Sparse {
                counter: if threshold == 0 || counter + 1 == threshold {
                    0
                } else {
                    counter + 1
                },
                threshold,
            },
        }
    }

    /// The regime after `ticks` ticks.
    pub open spec fn after(self, ticks: nat) -> Regime
        decreases ticks,
    {
        if ticks == 0 {
            self
        } else {
            self.next().after((ticks - 1) as nat)
        }
    }

    /// The tokens that the next `ticks` ticks emit, all together.
    pub open spec fn total(self, ticks: nat) -> nat
        decreases ticks,
    {
        if ticks == 0 {
            0
        } else {
            self.emit() + self.next().total((ticks - 1) as nat)
        }
    }

    /// The time between two ticks, in milliseconds.
    pub open spec fn period_ms(self) -> nat {
        match self {
            Regime::Regular { .. } => 100,
            Regime::Sparse { .. } => 1000,
        }
    }
}

/// The calculator for rates of at least one event per second, ticked ten
/// times a second. It adds a tenth of the rate at each tick, emits the whole
/// tokens that have gathered, and keeps the fraction for the next tick.
pub struct RegularRateCalculator {
    acc: u64,
    increment: u64,
}

impl View for RegularRateCalculator {
    type V = Regime;

    closed spec fn view(&self) -> Regime {
        Regime::Regular { carry: self.acc as nat, per_tick: self.increment as nat }
    }
}

impl RegularRateCalculator {
    #[verifier::type_invariant]
    closed spec fn inv(self) -> bool {
        self.acc < UNITS_PER_TOKEN
    }

    /// A calculator for `rate_micros` millionths of an event per second,
    /// with nothing carried over yet. A tenth of that rate, a tick's share,
    /// is `rate_micros` ten-millionths of a token.
    pub fn new(rate_micros: u64) -> (calc: RegularRateCalculator)
        ensures
            calc@ == (Regime::Regular { carry: 0, per_tick: rate_micros as nat }),
    {
        RegularRateCalculator { acc: 0, increment: rate_micros }
    }

    /// The number of tokens that this tick emits.
    pub fn next_sec(&mut self) -> (count: u64)
        ensures
            final(self)@.wf(),
            count == old(self)@.emit(),
            final(self)@ == old(self)@.next(),
    {
        proof {
            use_type_invariant(&*self);
            lemma_split_total(self.acc as nat, self.increment as nat);
        }
        let whole: u64 = self.increment / UNITS_PER_TOKEN;
        let part: u64 = self.increment % UNITS_PER_TOKEN;
        let sum: u64 = self.acc + part;
        if sum >= UNITS_PER_TOKEN {
            self.acc = sum - UNITS_PER_TOKEN;
            whole + 1
        } else {
            self.acc = sum;
            whole
        }
    }
}

proof fn lemma_split_total(carry: nat, per_tick: nat)
    requires
        carry < UNITS_PER_TOKEN,
    ensures
        ({
            let u = UNITS_PER_TOKEN as nat;
            let sum = carry + per_tick % u;
            &&& sum < 2 * u
            &&& sum >= u ==> (carry + per_tick) / u == per_tick / u + 1 && (carry + per_tick) % u
                == sum - u
            &&& sum < u ==> (carry + per_tick) / u == per_tick / u && (carry + per_tick) % u == sum
        }),
{
    let u = UNITS_PER_TOKEN as nat;
    let q = per_tick / u;
    let r = per_tick % u;
    assert(per_tick == u * q + r) by {
        vstd::arithmetic::div_mod::lemma_fundamental_div_mod(per_tick as int, u as int);
    }
    let sum = carry + r;
    if sum >= u {
        assert((carry + per_tick) as int == (q + 1) * u + (sum - u)) by (nonlinear_arith)
            requires
                per_tick == u * q + r,
                sum == carry + r,
        ;
        vstd::arithmetic::div_mod::lemma_fundamental_div_mod_converse(
            (carry + per_tick) as int,
            u as int,
            (q + 1) as int,
            (sum - u) as int,
        );
    } else {
        assert((carry + per_tick) as int == q * u + sum) by (nonlinear_arith)
            requires
                per_tick == u * q + r,
                sum == carry + r,
        ;
        vstd::arithmetic::div_mod::lemma_fundamental_div_mod_converse(
            (carry + per_tick) as int,
            u as int,
            q as int,
            sum as int,
        );
    }
}

/// The calculator for rates below one event per second, ticked once a
/// second: it counts ticks and emits one token each time the count reaches
/// its threshold, the whole number of seconds nearest to one over the rate.
pub struct SparseRateCalculator {
    counter: u64,
    threshold: u64,
}

impl View for SparseRateCalculator {
    type V = Regime;

    closed spec fn view(&self) -> Regime {
        Regime::Sparse { counter: self.counter as nat, threshold: self.threshold as nat }
    }
}

impl SparseRateCalculator {
    #[verifier::type_invariant]
    closed spec fn inv(self) -> bool {
        if self.threshold == 0 {
            self.counter == 0
        } else {
            self.counter < self.threshold
        }
    }

    /// A calculator for `rate_micros` millionths of an event per second that
    /// has counted no tick yet. At a rate of zero there is nothing to divide
    /// by: the threshold is zero, and is never reached.
    pub fn new(rate_micros: u64) -> (calc: SparseRateCalculator)
        ensures
            calc@ == (Regime::Sparse {
                counter: 0,
                threshold: if rate_micros == 0 {
                    0
                } else {
                    nearest_quotient(ONE_PER_SEC as nat, rate_micros as nat)
                },
            }),
    {
        if rate_micros == 0 {
            SparseRateCalculator { counter: 0, threshold: 0 }
        } else {
            let doubled: u128 = 2 * (ONE_PER_SEC as u128) + (rate_micros as u128);
            let divisor: u128 = 2 * (rate_micros as u128);
            let nearest: u128 = doubled / divisor;
            assert(nearest <= doubled) by (nonlinear_arith)
                requires
                    nearest == doubled / divisor,
                    divisor > 0,
                    doubled >= 0,
            ;
            assert(nearest <= ONE_PER_SEC + 1) by (nonlinear_arith)
                requires
                    nearest == doubled / divisor,
                    divisor >= 2,
                    doubled == 2 * ONE_PER_SEC + divisor / 2,
                    divisor % 2 == 0,
            ;
            SparseRateCalculator { counter: 0, threshold: nearest as u64 }
        }
    }

    /// The number of tokens that this tick emits: one or none.
    pub fn next_sec(&mut self) -> (count: u64)
        ensures
            final(self)@.wf(),
            count == old(self)@.emit(),
            final(self)@ == old(self)@.next(),
    {
        proof {
            use_type_invariant(&*self);
        }
        if self.threshold == 0 {
            0
        } else if self.counter + 1 == self.threshold {
            self.counter = 0;
            1
        } else {
            self.counter = self.counter + 1;
            0
        }
    }
}

/// A rate calculator in one of its two regimes.
pub enum RateCalculator {
    Regular(RegularRateCalculator),
    Sparse(SparseRateCalculator),
}

impl View for RateCalculator {
    type V = Regime;

    open spec fn view(&self) -> Regime {
        match self {
            RateCalculator::Regular(calc) => calc@,
            RateCalculator::Sparse(calc) => calc@,
        }
    }
}

impl RateCalculator {
    /// A fresh calculator for `rate_micros` millionths of an event per
    /// second: the regular one from one event per second on, the sparse one
    /// below, which at a rate of zero never emits.
    pub fn new(rate_micros: u64) -> (calc: RateCalculator)
        ensures
            calc@ == Regime::for_rate(rate_micros as nat),
            calc@.wf(),
    {
        if rate_micros >= ONE_PER_SEC {
            RateCalculator::Regular(RegularRateCalculator::new(rate_micros))
        } else {
            proof {
                if rate_micros > 0 {
                    lemma_threshold_positive(rate_micros as nat);
                }
            }
            RateCalculator::Sparse(SparseRateCalculator::new(rate_micros))
        }
    }

    /// The number of tokens that this tick emits.
    pub fn next_sec(&mut self) -> (count: u64)
        ensures
            final(self)@.wf(),
            count == old(self)@.emit(),
            final(self)@ == old(self)@.next(),
    {
        match self {
            RateCalculator::Regular(calc) => calc.next_sec(),
            RateCalculator::Sparse(calc) => calc.next_sec(),
        }
    }

    /// The time between two ticks of this calculator, in milliseconds.
    pub fn period_ms(&self) -> (ms: u64)
        ensures
            ms == self@.period_ms(),
    {
        match self {
            RateCalculator::Regular(_) => 100,
            RateCalculator::Sparse(_) => 1000,
        }
    }
}

/// Below one event per second, and above none, the threshold is at least one
/// tick.
pub proof fn lemma_threshold_positive(rate_micros: nat)
    requires
        0 < rate_micros < ONE_PER_SEC,
    ensures
        nearest_quotient(ONE_PER_SEC as nat, rate_micros) >= 1,
{
    let n = 2 * (ONE_PER_SEC as nat) + rate_micros;
    let d = 2 * rate_micros;
    assert(n / d >= 1) by (nonlinear_arith)
        requires
            d > 0,
            n >= d,
    ;
}

/// When a tick emits tokens, what is left of the sum after taking out whole
/// multiples of the emitted count is the fraction of a token in it.
pub proof fn lemma_carry_is_fraction(carry: nat, per_tick: nat)
    requires
        carry < UNITS_PER_TOKEN,
        carry + per_tick >= UNITS_PER_TOKEN,
    ensures
        ({
            let sum = carry + per_tick;
            let emitted = (Regime::Regular { carry, per_tick }).emit();
            let left = (Regime::Regular { carry, per_tick }).next();
            &&& emitted >= 1
            &&& left == Regime::Regular {
                carry: sum % (emitted * (UNITS_PER_TOKEN as nat)),
                per_tick,
            }
        }),
{
    let u = UNITS_PER_TOKEN as nat;
    let sum = carry + per_tick;
    let emitted = sum / u;
    vstd::arithmetic::div_mod::lemma_fundamental_div_mod(sum as int, u as int);
    assert(emitted >= 1) by (nonlinear_arith)
        requires
            sum >= u,
            u > 0,
            emitted == sum / u,
    ;
    let whole = emitted * u;
    assert(whole == u * emitted) by (nonlinear_arith)
        requires
            whole == emitted * u,
    ;
    assert(whole >= u) by (nonlinear_arith)
        requires
            whole == u * emitted,
            emitted >= 1,
    ;
    assert(whole <= sum < 2 * whole);
    vstd::arithmetic::div_mod::lemma_fundamental_div_mod_converse(
        sum as int,
        whole as int,
        1,
        (sum - whole) as int,
    );
}

/// One tick's share of a longer run: what the tick emits and what it leaves,
/// added to what follows, is the whole and the rest of the sum.
proof fn lemma_gather_step(carry: nat, inc: nat, unit: nat, more: nat)
    requires
        unit > 0,
    ensures
        (carry + inc) / unit + ((carry + inc) % unit + more) / unit == (carry + inc + more) / unit,
        ((carry + inc) % unit + more) % unit == (carry + inc + more) % unit,
{
    let s = carry + inc;
    let q = s / unit;
    let r = s % unit;
    vstd::arithmetic::div_mod::lemma_fundamental_div_mod(s as int, unit as int);
    vstd::arithmetic::div_mod::lemma_hoist_over_denominator((r + more) as int, q as int, unit);
    vstd::arithmetic::div_mod::lemma_mod_multiples_vanish(q as int, (r + more) as int, unit as int);
    assert(q * unit == unit * q) by (nonlinear_arith);
}

/// Over `ticks` ticks the regular calculator emits the whole tokens in what
/// it carried and what the ticks added, and carries the fraction on.
pub proof fn lemma_regular_run(carry: nat, per_tick: nat, ticks: nat)
    requires
        carry < UNITS_PER_TOKEN,
    ensures
        (Regime::Regular { carry, per_tick }).total(ticks) == (carry + ticks * per_tick) / (
        UNITS_PER_TOKEN as nat),
        (Regime::Regular { carry, per_tick }).after(ticks) == (Regime::Regular {
            carry: (carry + ticks * per_tick) % (UNITS_PER_TOKEN as nat),
            per_tick,
        }),
    decreases ticks,
{
    let u = UNITS_PER_TOKEN as nat;
    let start = Regime::Regular { carry, per_tick };
    if ticks == 0 {
        assert(ticks * per_tick == 0) by (nonlinear_arith)
            requires
                ticks == 0,
        ;
    } else {
        let rest = (ticks - 1) as nat;
        let left = (carry + per_tick) % u;
        lemma_regular_run(left, per_tick, rest);
        lemma_gather_step(carry, per_tick, u, rest * per_tick);
        assert(carry + per_tick + rest * per_tick == carry + ticks * per_tick) by (nonlinear_arith)
            requires
                rest == ticks - 1,
        ;
        assert(start.next() == Regime::Regular { carry: left, per_tick });
    }
}

/// Over `ticks` ticks the sparse calculator emits one token for each time
/// its count passes the threshold.
pub proof fn lemma_sparse_run(counter: nat, threshold: nat, ticks: nat)
    requires
        0 < threshold,
        counter < threshold,
    ensures
        (Regime::Sparse { counter, threshold }).total(ticks) == (counter + ticks) / threshold,
        (Regime::Sparse { counter, threshold }).after(ticks) == (Regime::Sparse {
            counter: (counter + ticks) % threshold,
            threshold,
        }),
    decreases ticks,
{
    let start = Regime::Sparse { counter, threshold };
    if ticks == 0 {
        vstd::arithmetic::div_mod::lemma_small_mod(counter, threshold);
        vstd::arithmetic::div_mod::lemma_basic_div(counter as int, threshold as int);
    } else {
        let rest = (ticks - 1) as nat;
        let left = (counter + 1) % threshold;
        if counter + 1 == threshold {
            vstd::arithmetic::div_mod::lemma_mod_self_0(threshold as int);
            vstd::arithmetic::div_mod::lemma_div_by_self(threshold as int);
        } else {
            vstd::arithmetic::div_mod::lemma_small_mod(counter + 1, threshold);
            vstd::arithmetic::div_mod::lemma_basic_div((counter + 1) as int, threshold as int);
        }
        assert(start.emit() == (counter + 1) / threshold);
        assert(start.next() == Regime::Sparse { counter: left, threshold });
        lemma_sparse_run(left, threshold, rest);
        lemma_gather_step(counter, 1, threshold, rest);
    }
}

/// At a rate of at least one event per second, any ten ticks in a row emit
/// the whole number nearest to the rate, give or take one token.
pub proof fn lemma_regular_window(rate_micros: nat, start: nat)
    requires
        rate_micros >= ONE_PER_SEC,
    ensures
        ({
            let emitted = Regime::for_rate(rate_micros).after(start).total(TICKS_PER_SEC as nat);
            let rounded = nearest_quotient(rate_micros, ONE_PER_SEC as nat);
            rounded <= emitted + 1 && emitted <= rounded + 1
        }),
{
    let u = UNITS_PER_TOKEN as nat;
    lemma_regular_run(0, rate_micros, start);
    let carry = (start * rate_micros) % u;
    lemma_regular_run(carry, rate_micros, 10);
    let emitted = (carry + 10 * rate_micros) / u;
    let rounded = (2 * rate_micros + 1_000_000) / 2_000_000;
    assert(rounded == nearest_quotient(rate_micros, ONE_PER_SEC as nat));
    let f = rate_micros / 1_000_000;
    assert(f <= emitted <= f + 1);
    assert(f <= rounded <= f + 1);
}

/// At a rate below one event per second, and above none, any run of as many
/// ticks as the threshold emits exactly one token, and a fresh calculator
/// emits it at each tick whose number, counted from one, is a multiple of the
/// threshold.
pub proof fn lemma_sparse_window(rate_micros: nat, start: nat, tick: nat)
    requires
        0 < rate_micros < ONE_PER_SEC,
        tick >= 1,
    ensures
        ({
            let threshold = nearest_quotient(ONE_PER_SEC as nat, rate_micros);
            let fresh = Regime::for_rate(rate_micros);
            &&& threshold >= 1
            &&& fresh.after(start).total(threshold) == 1
            &&& fresh.after((tick - 1) as nat).emit() == if tick % threshold == 0 {
                1nat
            } else {
                0nat
            }
        }),
{
    let threshold = nearest_quotient(ONE_PER_SEC as nat, rate_micros);
    lemma_threshold_positive(rate_micros);
    lemma_sparse_run(0, threshold, start);
    let counter = start % threshold;
    lemma_sparse_run(counter, threshold, threshold);
    assert((counter + threshold) / threshold == 1) by (nonlinear_arith)
        requires
            counter < threshold,
            threshold > 0,
    ;
    let before = (tick - 1) as nat;
    lemma_sparse_run(0, threshold, before);
    let seen = before % threshold;
    assert((seen + 1 == threshold) <==> (tick % threshold == 0)) by {
        lemma_gather_step(before, 0, threshold, 1);
        if seen + 1 == threshold {
            vstd::arithmetic::div_mod::lemma_mod_self_0(threshold as int);
        } else {
            vstd::arithmetic::div_mod::lemma_small_mod(seen + 1, threshold);
        }
    }
}

/// At a rate of zero no tick ever emits a token.
pub proof fn lemma_zero_rate(ticks: nat)
    ensures
        Regime::for_rate(0).total(ticks) == 0,
        Regime::for_rate(0).after(ticks) == Regime::for_rate(0),
    decreases ticks,
{
    if ticks > 0 {
        assert(Regime::for_rate(0).next() == Regime::for_rate(0));
        lemma_zero_rate((ticks - 1) as nat);
    }
}

/// What can happen to a producer: its timer ticks, or the cancellation that
/// it waits for arrives.
#[derive(Clone, Copy, Debug, PartialEq, Eq, Structural)]
pub enum ProducerEvent {
    Tick,
    Cancelled,
}

/// What a producer asks for in answer to an event.
#[derive(Clone, Copy, Debug, PartialEq, Eq, Structural)]
pub enum ProducerAction {
    /// Send this many tokens.
    Emit(u64),
    /// The token channel has just been closed: report the producer as
    /// killed, and end.
    Stop,
    /// The producer has ended: do nothing.
    Nothing,
}

/// A producer as numbers: the regime of its calculator, and whether it has
/// stopped.
pub struct ProducerState {
    pub regime: Regime,
    pub stopped: bool,
}

impl ProducerState {
    /// The action that answers `event`.
    pub open spec fn action(self, event: ProducerEvent) -> ProducerAction {
        if self.stopped {
            ProducerAction::Nothing
        } else {
            match event {
                ProducerEvent::Tick => ProducerAction::Emit(self.regime.emit() as u64),
                ProducerEvent::Cancelled => ProducerAction::Stop,
            }
        }
    }

    /// The state after `event`.
    pub open spec fn step(self, event: ProducerEvent) -> ProducerState {
        if self.stopped {
            self
        } else {
            match event {
                ProducerEvent::Tick => ProducerState { regime: self.regime.next(), stopped: false },
                ProducerEvent::Cancelled => ProducerState { regime: self.regime, stopped: true },
            }
        }
    }

    /// The state after all of `events`, in their order.
    pub open spec fn run(self, events: Seq<ProducerEvent>) -> ProducerState
        decreases events.len(),
    {
        if events.len() == 0 {
            self
        } else {
            self.step(events.first()).run(events.drop_first())
        }
    }

    /// How many of `events` are answered by `Stop`.
    pub open spec fn stops(self, events: Seq<ProducerEvent>) -> nat
        decreases events.len(),
    {
        if events.len() == 0 {
            0
        } else {
            let now: nat = if self.action(events.first()) == ProducerAction::Stop {
                1
            } else {
                0
            };
            now + self.step(events.first()).stops(events.drop_first())
        }
    }

    /// How many of `events` are answered by an `Emit`.
    pub open spec fn emissions(self, events: Seq<ProducerEvent>) -> nat
        decreases events.len(),
    {
        if events.len() == 0 {
            0
        } else {
            let now: nat = if self.action(events.first()) is Emit {
                1
            } else {
                0
            };
            now + self.step(events.first()).emissions(events.drop_first())
        }
    }
}

/// Whatever happens to a producer, and in whatever order, it stops exactly
/// once if a cancellation is among the events and never otherwise; once it
/// has stopped it emits nothing and stays stopped.
pub proof fn lemma_producer_stops_once(state: ProducerState, events: Seq<ProducerEvent>)
    ensures
        state.stopped ==> state.stops(events) == 0 && state.emissions(events) == 0 && state.run(
            events,
        ) == state,
        !state.stopped ==> state.stops(events) == (if events.contains(ProducerEvent::Cancelled) {
            1nat
        } else {
            0nat
        }),
        state.run(events).stopped <==> state.stopped || events.contains(ProducerEvent::Cancelled),
    decreases events.len(),
{
    if events.len() > 0 {
        lemma_contains_split(events, ProducerEvent::Cancelled);
        lemma_producer_stops_once(state.step(events.first()), events.drop_first());
    }
}

/// The deciding half of the producer task. Whoever drives it waits
/// `period_ms` between ticks, hands each tick and the cancellation to `step`,
/// and does what the answer asks.
pub struct Producer {
    calculator: RateCalculator,
    stopped: bool,
    tokens: Sender<bool>,
}

impl View for Producer {
    type V = ProducerState;

    closed spec fn view(&self) -> ProducerState {
        ProducerState { regime: self.calculator@, stopped: self.stopped }
    }
}

impl Producer {
    /// A running producer with a fresh calculator for `rate_micros`
    /// millionths of an event per second, which sends its tokens on `tokens`.
    pub fn new(rate_micros: u64, tokens: Sender<bool>) -> (producer: Producer)
        ensures
            producer@ == (ProducerState {
                regime: Regime::for_rate(rate_micros as nat),
                stopped: false,
            }),
            producer.sender() == tokens,
    {
        Producer { calculator: RateCalculator::new(rate_micros), stopped: false, tokens }
    }

    /// The handle on which the producer sends.
    pub closed spec fn sender(&self) -> Sender<bool> {
        self.tokens
    }

    /// The sending side of the token channel, for the tokens that `step`
    /// asks for.
    pub fn tokens(&self) -> (tokens: &Sender<bool>)
        ensures
            *tokens == self.sender(),
    {
        &self.tokens
    }

    /// The time between two ticks, in milliseconds: that of the calculator's
    /// regime.
    pub fn period_ms(&self) -> (ms: u64)
        ensures
            ms == self@.regime.period_ms(),
    {
        self.calculator.period_ms()
    }

    /// Whether the producer has stopped.
    pub fn is_stopped(&self) -> (stopped: bool)
        ensures
            stopped == self@.stopped,
    {
        self.stopped
    }

    /// Takes one event and says what to do about it. On the cancellation it
    /// closes the token channel, so that those who read it learn that no
    /// token follows.
    pub fn step(&mut self, event: ProducerEvent) -> (action: ProducerAction)
        ensures
            action == old(self)@.action(event),
            final(self)@ == old(self)@.step(event),
            final(self).sender() == old(self).sender(),
    {
        if self.stopped {
            ProducerAction::Nothing
        } else {
            match event {
                ProducerEvent::Tick => {
                    let count: u64 = self.calculator.next_sec();
                    ProducerAction::Emit(count)
                },
                ProducerEvent::Cancelled => {
                    let _ = self.tokens.close();
                    self.stopped = true;
                    ProducerAction::Stop
                },
            }
        }
    }
}

/// A ticker for one target rate.
pub struct TestTicker {
    rate_per_sec: u64,
}

impl TestTicker {
    /// The rate, in millionths of an event per second.
    pub closed spec fn rate_micros(&self) -> u64 {
        self.rate_per_sec
    }

    /// A ticker for `rate_micros` millionths of an event per second.
    pub fn new(rate_micros: u64) -> (ticker: Box<TestTicker>)
        ensures
            ticker.rate_micros() == rate_micros,
    {
        Box::new(TestTicker { rate_per_sec: rate_micros })
    }

    /// The rate that the ticker was made for.
    pub fn rate_per_sec(&self) -> (rate: u64)
        ensures
            rate == self.rate_micros(),
    {
        self.rate_per_sec
    }

    /// Sets the producer up: running, with a fresh calculator for the
    /// ticker's rate, and sending its tokens on `tx`.
    pub fn run(&self, tx: Sender<bool>) -> (producer: Producer)
        ensures
            producer@ == (ProducerState {
                regime: Regime::for_rate(self.rate_micros() as nat),
                stopped: false,
            }),
            producer.sender() == tx,
    {
        Producer::new(self.rate_per_sec, tx)
    }
}

/// The callback of a producer: `on_producer_killed` is called once, when the
/// producer ends.
pub struct ProducerEvents<F> {
    pub on_producer_killed: Arc<F>,
}

} // verus!

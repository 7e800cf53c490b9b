//! The tick timer: a repeating interval that accumulates elapsed time and
//! fires each time the accumulated time reaches its period.

use vstd::arithmetic::div_mod::*;
use vstd::prelude::*;

verus! {

/// Default period: half a second.
pub const DEFAULT_PERIOD_NANOS: u64 = 500_000_000;

/// The mathematical timer: a period and the time accumulated towards it,
/// both in nanoseconds.
pub struct TimerView {
    pub period: nat,
    pub elapsed: nat,
}

impl TimerView {
    /// The accumulated time stays below the period. A timer with period
    /// zero accumulates nothing.
    pub open spec fn wf(self) -> bool {
        if self.period == 0 {
            self.elapsed == 0
        } else {
            self.elapsed < self.period
        }
    }

    /// Whether a frame that took `delta` makes the timer fire.
    pub open spec fn fires(self, delta: nat) -> bool {
        self.elapsed + delta >= self.period
    }

    /// The timer after a frame that took `delta`: whole periods are dropped
    /// from the accumulated time and the remainder is kept.
    pub open spec fn tick(self, delta: nat) -> TimerView {
        TimerView {
            elapsed: if self.period == 0 {
                0
            } else {
                (self.elapsed + delta) % self.period
            },
            ..self
        }
    }

    /// The timer with nothing accumulated.
    pub open spec fn reset(self) -> TimerView {
        TimerView { elapsed: 0, ..self }
    }

    /// The timer after the frames `deltas`, first to last.
    pub open spec fn run(self, deltas: Seq<nat>) -> TimerView
        decreases deltas.len(),
    {
        if deltas.len() == 0 {
            self
        } else {
            self.run(deltas.drop_last()).tick(deltas.last())
        }
    }

    /// On how many of the frames `deltas` the timer fires.
    pub open spec fn fired(self, deltas: Seq<nat>) -> nat
        decreases deltas.len(),
    {
        if deltas.len() == 0 {
            0
        } else {
            let before = self.run(deltas.drop_last());
            self.fired(deltas.drop_last()) + if before.fires(deltas.last()) {
                1nat
            } else {
                0nat
            }
        }
    }

    /// A tick keeps the period and leaves less than a period accumulated.
    pub proof fn lemma_tick_preserves_wf(self, delta: nat)
        requires
            self.wf(),
        ensures
            self.tick(delta).wf(),
            self.tick(delta).period == self.period,
    {
        if self.period > 0 {
            lemma_mod_bound((self.elapsed + delta) as int, self.period as int);
        }
    }

    /// The remainder carries over: however the time is cut into frames, the
    /// timer holds the total time modulo its period, so nothing drifts.
    pub proof fn lemma_remainder_carries(self, deltas: Seq<nat>)
        requires
            self.wf(),
            self.period > 0,
        ensures
            self.run(deltas).period == self.period,
            self.run(deltas).elapsed == (self.elapsed + total(deltas)) % self.period,
            self.run(deltas).wf(),
        decreases deltas.len(),
    {
        let p = self.period as int;
        if deltas.len() == 0 {
            lemma_small_mod(self.elapsed, self.period);
        } else {
            let front = deltas.drop_last();
            let d = deltas.last() as int;
            self.lemma_remainder_carries(front);
            let s = (self.elapsed + total(front)) as int;
            lemma_add_mod_noop(s, d, p);
            lemma_mod_bound(s, p);
            lemma_small_mod((s % p) as nat, self.period);
            lemma_add_mod_noop(s % p, d, p);
            lemma_mod_bound(s + d, p);
        }
    }

    /// One firing per period of real time: when no frame takes longer than
    /// the period, the timer has fired once for every whole period that has
    /// gone by.
    pub proof fn lemma_one_firing_per_period(self, deltas: Seq<nat>)
        requires
            self.wf(),
            self.period > 0,
            forall|i: int| 0 <= i < deltas.len() ==> deltas[i] <= self.period,
        ensures
            self.fired(deltas) == (self.elapsed + total(deltas)) / self.period,
        decreases deltas.len(),
    {
        let p = self.period as int;
        if deltas.len() == 0 {
            lemma_basic_div(self.elapsed as int, p);
        } else {
            let front = deltas.drop_last();
            let d = deltas.last() as int;
            self.lemma_one_firing_per_period(front);
            self.lemma_remainder_carries(front);
            let s = (self.elapsed + total(front)) as int;
            let carried = s % p;
            lemma_fundamental_div_mod(s, p);
            lemma_mod_bound(s, p);
            if carried + d >= p {
                assert(s + d == (s / p + 1) * p + (carried + d - p)) by (nonlinear_arith)
                    requires
                        s == p * (s / p) + carried,
                ;
                lemma_fundamental_div_mod_converse(s + d, p, s / p + 1, carried + d - p);
            } else {
                assert(s + d == (s / p) * p + (carried + d)) by (nonlinear_arith)
                    requires
                        s == p * (s / p) + carried,
                ;
                lemma_fundamental_div_mod_converse(s + d, p, s / p, carried + d);
            }
        }
    }
}

/// The time the frames `deltas` take together.
pub open spec fn total(deltas: Seq<nat>) -> nat
    decreases deltas.len(),
{
    if deltas.len() == 0 {
        0
    } else {
        total(deltas.drop_last()) + deltas.last()
    }
}

/// A repeating timer over whole nanoseconds.
#[derive(Debug, Clone, Copy)]
pub struct TickTimer {
    period: u64,
    elapsed: u64,
}

impl View for TickTimer {
    type V = TimerView;

    closed spec fn view(&self) -> TimerView {
        TimerView { period: self.period as nat, elapsed: self.elapsed as nat }
    }
}

impl TickTimer {
    /// What holds of every timer: less than a period is accumulated.
    #[verifier::type_invariant]
    pub open spec fn inv(self) -> bool {
        self@.wf()
    }

    /// A timer that fires every `period_nanos`, with nothing accumulated.
    /// With a period of zero it fires on every tick.
    pub fn new(period_nanos: u64) -> (timer: Self)
        ensures
            timer@ == (TimerView { period: period_nanos as nat, elapsed: 0 }),
    {
        TickTimer { period: period_nanos, elapsed: 0 }
    }

    pub fn period(&self) -> (period: u64)
        ensures
            period == self@.period,
    {
        self.period
    }

    /// Time accumulated since the timer last fired.
    pub fn elapsed(&self) -> (elapsed: u64)
        ensures
            elapsed == self@.elapsed,
    {
        self.elapsed
    }

    /// Advances the timer by one frame of `delta_nanos` and tells whether
    /// it fired. It fires at most once per call, however long the frame.
    pub fn tick(&mut self, delta_nanos: u64) -> (fired: bool)
        ensures
            final(self)@ == old(self)@.tick(delta_nanos as nat),
            fired == old(self)@.fires(delta_nanos as nat),
    {
        proof {
            use_type_invariant(&*self);
        }
        if self.period == 0 {
            return true;
        }
        let sum: u128 = self.elapsed as u128 + delta_nanos as u128;
        let period: u128 = self.period as u128;
        let rest: u128 = sum % period;
        self.elapsed = rest as u64;
        sum >= period
    }

    /// Drops the accumulated time.
    pub fn reset(&mut self)
        ensures
            final(self)@ == old(self)@.reset(),
    {
        proof {
            use_type_invariant(&*self);
        }
        self.elapsed = 0;
    }
}

} // verus!

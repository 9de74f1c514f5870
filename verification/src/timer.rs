//! The repeating timer that paces the blink of the selected plate.
//!
//! The timer's state is kept as two plain nanosecond counts, so that contracts
//! can speak about it; advancing it is left to `bevy::time::Timer`.

use bevy::time::{Timer, TimerMode};
use std::time::Duration;
use vstd::arithmetic::div_mod::{
    lemma_div_basics, lemma_div_is_ordered, lemma_div_pos_is_pos, lemma_fundamental_div_mod,
    lemma_fundamental_div_mod_converse, lemma_mod_bound,
};
use vstd::prelude::*;

verus! {

/// Nanoseconds accumulated by a repeating timer of period `period` that held
/// `elapsed` and is advanced by `delta`: what is left after taking out every
/// whole period. A timer of period zero never accumulates anything.
pub open spec fn elapsed_after_tick(period: int, elapsed: int, delta: int) -> int {
    if period == 0 {
        0
    } else {
        (elapsed + delta) % period
    }
}

/// Whether a repeating timer of period `period` that held `elapsed` completes
/// a period when it is advanced by `delta`: the accumulated time reaches the
/// period. A timer of period zero completes one on every tick.
pub open spec fn period_completed(period: int, elapsed: int, delta: int) -> bool {
    elapsed + delta >= period
}

/// A tick loses no time. For a timer with a period that holds less than one
/// period, what a tick takes off the accumulated time is a whole number of
/// periods, and less than one period stays behind. The tick completes a period
/// exactly when that whole number is not zero, and a tick shorter than the
/// period takes off one period at most.
pub proof fn lemma_tick_accounts_for_time(period: int, elapsed: int, delta: int)
    requires
        0 < period,
        0 <= elapsed < period,
        0 <= delta,
    ensures
        0 <= elapsed_after_tick(period, elapsed, delta) < period,
        elapsed + delta == ((elapsed + delta) / period) * period + elapsed_after_tick(
            period,
            elapsed,
            delta,
        ),
        0 <= (elapsed + delta) / period,
        period_completed(period, elapsed, delta) <==> (elapsed + delta) / period >= 1,
        delta < period ==> (elapsed + delta) / period <= 1,
{
    let total = elapsed + delta;
    lemma_fundamental_div_mod(total, period);
    lemma_mod_bound(total, period);
    lemma_div_pos_is_pos(total, period);
    assert((total / period) * period == period * (total / period)) by (nonlinear_arith);
    if total < period {
        lemma_fundamental_div_mod_converse(total, period, 0, total);
    } else {
        lemma_div_is_ordered(period, total, period);
        lemma_div_basics(period);
        if delta < period {
            lemma_fundamental_div_mod_converse(total, period, 1, total - period);
        }
    }
}

/// Advances a fresh `bevy::time::Timer` in `TimerMode::Repeating`, of duration
/// `period_nanos` and with `elapsed_nanos` already on it, by `delta_nanos`
/// through `Timer::tick`, and hands back the nanoseconds it then holds together
/// with `Timer::finished`.
///
/// Trusted: the contract restates what `tick` does to an unpaused repeating
/// timer. The elapsed time grows by the delta; the timer is finished exactly
/// when the sum has reached the duration, and then only the remainder of the
/// sum by the duration stays on the timer; a zero duration leaves nothing.
#[verifier::external_body]
fn tick_repeating_timer(
    period_nanos: u64,
    elapsed_nanos: u64,
    delta_nanos: u64,
) -> (after: (u64, bool))
    ensures
        after.0 == elapsed_after_tick(period_nanos as int, elapsed_nanos as int, delta_nanos as int),
        after.1 == period_completed(period_nanos as int, elapsed_nanos as int, delta_nanos as int),
{
    let mut timer = Timer::new(Duration::from_nanos(period_nanos), TimerMode::Repeating);
    timer.set_elapsed(Duration::from_nanos(elapsed_nanos));
    timer.tick(Duration::from_nanos(delta_nanos));
    (timer.elapsed().as_nanos() as u64, timer.finished())
}

/// Repeating timer that blinks the selected plate: it fires on each tick with
/// which the accumulated time reaches the period.
#[derive(Clone, Copy, Debug, PartialEq, Eq)]
pub struct PlateSelectedAnimationTimer {
    period_nanos: u64,
    elapsed_nanos: u64,
}

impl PlateSelectedAnimationTimer {
    /// Length of one period, in nanoseconds.
    pub closed spec fn spec_period(&self) -> int {
        self.period_nanos as int
    }

    /// Time accumulated since the last completed period, in nanoseconds.
    pub closed spec fn spec_elapsed(&self) -> int {
        self.elapsed_nanos as int
    }

    /// A timer of the given period with nothing accumulated.
    pub fn new(period_nanos: u64) -> (timer: Self)
        ensures
            timer.spec_period() == period_nanos,
            timer.spec_elapsed() == 0,
    {
        PlateSelectedAnimationTimer { period_nanos, elapsed_nanos: 0 }
    }

    /// Length of one period, in nanoseconds.
    pub fn period_nanos(&self) -> (period: u64)
        ensures
            period == self.spec_period(),
    {
        self.period_nanos
    }

    /// Time accumulated since the last completed period, in nanoseconds.
    pub fn elapsed_nanos(&self) -> (elapsed: u64)
        ensures
            elapsed == self.spec_elapsed(),
    {
        self.elapsed_nanos
    }

    /// Advances the timer by `delta_nanos` and tells whether it just finished,
    /// that is whether the accumulated time has reached the period with this
    /// tick. The period stays; the accumulated time keeps what is left over.
    pub fn tick(&mut self, delta_nanos: u64) -> (just_finished: bool)
        ensures
            final(self).spec_period() == old(self).spec_period(),
            final(self).spec_elapsed() == elapsed_after_tick(
                old(self).spec_period(),
                old(self).spec_elapsed(),
                delta_nanos as int,
            ),
            just_finished == period_completed(
                old(self).spec_period(),
                old(self).spec_elapsed(),
                delta_nanos as int,
            ),
    {
        let after = tick_repeating_timer(self.period_nanos, self.elapsed_nanos, delta_nanos);
        self.elapsed_nanos = after.0;
        after.1
    }
}

} // verus!

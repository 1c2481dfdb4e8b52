//! Countdown timers. The timers are `bevy::time::Timer` values; this module
//! states, without proof, what the calls the library makes on them do.

use vstd::prelude::*;
use vstd::arithmetic::div_mod::{lemma_div_plus_one, lemma_mod_sub_multiples_vanish, lemma_small_mod};

verus! {

/// `bevy::time::Timer`, of which nothing but the functions below is known here.
#[verifier::external_type_specification]
#[verifier::external_body]
pub struct ExTimer(bevy::time::Timer);

/// `bevy::time::TimerMode`, with its two variants `Once` and `Repeating`.
#[verifier::external_type_specification]
pub struct ExTimerMode(bevy::time::TimerMode);

/// The period of a timer, in nanoseconds (`Timer::duration`).
pub uninterp spec fn timer_duration(t: bevy::time::Timer) -> nat;

/// The time a timer has counted so far, in nanoseconds (`Timer::elapsed`).
pub uninterp spec fn timer_elapsed(t: bevy::time::Timer) -> nat;

/// Whether a timer reached its period on its latest tick (`Timer::finished`).
pub uninterp spec fn timer_finished(t: bevy::time::Timer) -> bool;

/// Whether a timer stops at its period or starts over (`Timer::mode`).
pub uninterp spec fn timer_mode(t: bevy::time::Timer) -> bevy::time::TimerMode;

/// Whether a timer is paused (`Timer::paused`).
pub uninterp spec fn timer_paused(t: bevy::time::Timer) -> bool;

/// What the library reads of a timer: its period and the time it has counted,
/// both in nanoseconds, whether it is finished, its mode, and whether it is
/// paused.
pub struct TimerState {
    pub duration: nat,
    pub elapsed: nat,
    pub finished: bool,
    pub mode: bevy::time::TimerMode,
    pub paused: bool,
}

/// What the library reads of the timer `t`.
pub open spec fn state_of(t: bevy::time::Timer) -> TimerState {
    TimerState {
        duration: timer_duration(t),
        elapsed: timer_elapsed(t),
        finished: timer_finished(t),
        mode: timer_mode(t),
        paused: timer_paused(t),
    }
}

/// The longest time a `Duration` holds, in nanoseconds.
pub open spec fn longest() -> nat {
    (u64::MAX as nat) * 1_000_000_000 + 999_999_999
}

impl TimerState {
    /// A timer as `Timer::new` returns it.
    pub open spec fn fresh(duration: nat, mode: bevy::time::TimerMode) -> TimerState {
        TimerState { duration, elapsed: 0, finished: false, mode, paused: false }
    }

    /// The timer starts over when it reaches its period.
    pub open spec fn repeating(self) -> bool {
        self.mode == bevy::time::TimerMode::Repeating
    }

    /// The timer after `Timer::reset`.
    pub open spec fn reset(self) -> TimerState {
        TimerState { elapsed: 0, finished: false, ..self }
    }

    /// The timer after `Timer::set_duration`.
    pub open spec fn with_duration(self, duration: nat) -> TimerState {
        TimerState { duration, ..self }
    }

    /// The timer after `Timer::tick`. A paused timer counts nothing, and a
    /// repeating one is then not finished. A one-shot timer that has finished
    /// stays as it is. Otherwise the elapsed time grows by `delta`, up to the
    /// longest `Duration`; the timer is finished if that reaches the period; a
    /// finished one-shot timer stops at the period, a finished repeating timer
    /// keeps the remainder (of which 64 bits are kept; all of it for a period
    /// of under 584 years).
    pub open spec fn tick(self, delta: nat) -> TimerState {
        if self.paused {
            TimerState { finished: self.finished && !self.repeating(), ..self }
        } else if !self.repeating() && self.finished {
            self
        } else {
            let counted = if self.elapsed + delta <= longest() {
                self.elapsed + delta
            } else {
                longest()
            };
            if counted < self.duration {
                TimerState { elapsed: counted, finished: false, ..self }
            } else if !self.repeating() {
                TimerState { elapsed: self.duration, finished: true, ..self }
            } else if self.duration == 0 {
                TimerState { elapsed: 0, finished: true, ..self }
            } else {
                TimerState {
                    elapsed: (counted % self.duration) % 0x1_0000_0000_0000_0000,
                    finished: true,
                    ..self
                }
            }
        }
    }
}

/// The sum of the frame times `deltas`.
pub open spec fn total(deltas: Seq<nat>) -> nat
    decreases deltas.len(),
{
    if deltas.len() == 0 {
        0
    } else {
        deltas[0] + total(deltas.drop_first())
    }
}

/// On how many of the frames `deltas`, ticked one after the other, the timer is
/// finished.
pub open spec fn firings(timer: TimerState, deltas: Seq<nat>) -> nat
    decreases deltas.len(),
{
    if deltas.len() == 0 {
        0
    } else {
        let next = timer.tick(deltas[0]);
        (if next.finished { 1nat } else { 0nat }) + firings(next, deltas.drop_first())
    }
}

/// A running repeating timer ticked by frames of which none is longer than its
/// period is finished on as many frames as whole periods have passed: frames
/// that sum to one period finish it once, frames that sum to two and a half
/// periods finish it twice.
pub proof fn lemma_tick_gating(timer: TimerState, deltas: Seq<nat>)
    requires
        timer.repeating(),
        !timer.paused,
        0 < timer.duration <= u64::MAX,
        timer.elapsed < timer.duration,
        forall|i: int| 0 <= i < deltas.len() ==> deltas[i] <= timer.duration,
    ensures
        firings(timer, deltas) == (timer.elapsed + total(deltas)) / timer.duration,
    decreases deltas.len(),
{
    let period = timer.duration;
    if deltas.len() == 0 {
        vstd::arithmetic::div_mod::lemma_basic_div(timer.elapsed as int, period as int);
    } else {
        let counted = timer.elapsed + deltas[0];
        let next = timer.tick(deltas[0]);
        let rest = deltas.drop_first();
        assert(counted <= longest());
        assert forall|i: int| 0 <= i < rest.len() implies rest[i] <= next.duration by {
            assert(rest[i] == deltas[i + 1]);
        }
        if counted < period {
            lemma_tick_gating(next, rest);
        } else {
            lemma_small_mod((counted - period) as nat, period);
            lemma_mod_sub_multiples_vanish(counted as int, period as int);
            lemma_small_mod((counted % period) as nat, 0x1_0000_0000_0000_0000);
            assert(next.elapsed == counted - period);
            lemma_tick_gating(next, rest);
            lemma_div_plus_one((next.elapsed + total(rest)) as int, period as int);
        }
    }
}

/// `Timer::new`, with the period in nanoseconds: a timer of that period and
/// mode that has counted nothing, is not finished and not paused.
#[verifier::external_body]
pub(crate) fn timer_new(duration_nanos: u64, mode: bevy::time::TimerMode) -> (t: bevy::time::Timer)
    ensures
        timer_duration(t) == duration_nanos,
        timer_elapsed(t) == 0,
        !timer_finished(t),
        timer_mode(t) == mode,
        !timer_paused(t),
{
    bevy::time::Timer::new(std::time::Duration::from_nanos(duration_nanos), mode)
}

/// `Timer::tick`, with the step in nanoseconds: the timer changes as
/// `TimerState::tick` says.
#[verifier::external_body]
pub(crate) fn timer_tick(t: &mut bevy::time::Timer, delta_nanos: u64)
    ensures
        timer_duration(*final(t)) == timer_duration(*old(t)),
        timer_mode(*final(t)) == timer_mode(*old(t)),
        timer_paused(*final(t)) == timer_paused(*old(t)),
        timer_elapsed(*final(t)) == state_of(*old(t)).tick(delta_nanos as nat).elapsed,
        timer_finished(*final(t)) == state_of(*old(t)).tick(delta_nanos as nat).finished,
{
    t.tick(std::time::Duration::from_nanos(delta_nanos));
}

/// `Timer::set_duration`, with the period in nanoseconds: only the period changes.
#[verifier::external_body]
pub(crate) fn timer_set_duration(t: &mut bevy::time::Timer, duration_nanos: u64)
    ensures
        timer_duration(*final(t)) == duration_nanos,
        timer_elapsed(*final(t)) == timer_elapsed(*old(t)),
        timer_finished(*final(t)) == timer_finished(*old(t)),
        timer_mode(*final(t)) == timer_mode(*old(t)),
        timer_paused(*final(t)) == timer_paused(*old(t)),
{
    t.set_duration(std::time::Duration::from_nanos(duration_nanos));
}

/// `Timer::finished` reads the finished flag.
pub assume_specification[ bevy::time::Timer::finished ](t: &bevy::time::Timer) -> (r: bool)
    ensures
        r == timer_finished(*t),
;

/// `Timer::reset` clears the elapsed time and the finished flag and leaves the
/// period, the mode and the pause as they are.
pub assume_specification[ bevy::time::Timer::reset ](t: &mut bevy::time::Timer)
    ensures
        timer_duration(*final(t)) == timer_duration(*old(t)),
        timer_elapsed(*final(t)) == 0,
        !timer_finished(*final(t)),
        timer_mode(*final(t)) == timer_mode(*old(t)),
        timer_paused(*final(t)) == timer_paused(*old(t)),
;

} // verus!

//! Countdown timers.
//!
//! A timer is kept as plain numbers. While it runs, a tick is worked out by
//! the timer of the `bevy` engine, which carries what a tick goes beyond the
//! end of a repeating countdown over into the next round. The timer of a
//! capture point does not carry over: it starts each round in full, by
//! `tick_and_restart`.

use vstd::prelude::*;

verus! {

/// A countdown over a fixed duration, in microseconds.
#[derive(Clone, Copy, Debug, PartialEq, Eq, Structural)]
pub struct Timer {
    /// The full length of one countdown.
    pub duration: u32,
    /// What is left of the running countdown.
    pub remaining: u32,
    /// Whether the countdown starts over when it runs out.
    pub repeating: bool,
    /// Whether the countdown had run out at the end of the last tick.
    pub finished: bool,
    /// Whether the countdown ran out during the last tick.
    pub just_finished: bool,
}

/// How much of its countdown the timer `t` has behind it. A timer that has
/// more left than its duration has nothing behind it, and neither has
/// a repeating timer that has nothing left: its next round has begun.
pub open spec fn elapsed(t: Timer) -> u32 {
    if t.remaining > t.duration || (t.repeating && t.remaining == 0) {
        0
    } else {
        (t.duration - t.remaining) as u32
    }
}

/// What a running timer of the given `duration` that has `elapsed` behind
/// it comes to after `delta`: what it has behind it then, whether it has run
/// out, and whether it ran out in this tick. A countdown that does not run
/// out goes on. One that runs out stops at its end if it does not repeat,
/// and goes round if it does, as often as `delta` takes it, keeping what is
/// left over of `delta`.
pub open spec fn run(duration: u32, elapsed: u32, repeating: bool, delta: u32) -> (u32, bool, bool) {
    let total = elapsed + delta;
    if total < duration {
        (total as u32, false, false)
    } else if repeating {
        ((total % (duration as int)) as u32, true, true)
    } else {
        (duration, true, true)
    }
}

/// The timer `t` after `delta` microseconds.
///
/// A timer that does not repeat and has run out stays as it is. A repeating
/// timer without duration runs out in every tick. Any other timer runs as
/// `run` says.
pub open spec fn ticked(t: Timer, delta: u32) -> Timer {
    if !t.repeating && t.finished {
        Timer { just_finished: false, ..t }
    } else if t.repeating && t.duration == 0 {
        Timer { remaining: 0, finished: true, just_finished: true, ..t }
    } else {
        let after = run(t.duration, elapsed(t), t.repeating, delta);
        Timer {
            remaining: (t.duration - after.0) as u32,
            finished: after.1,
            just_finished: after.2,
            ..t
        }
    }
}

/// The timer `t` after `delta` microseconds, where it starts over in full
/// when it runs out: time left over is dropped, not carried into the next
/// round, and the timer runs out at most once in a tick, however long the
/// tick. A timer that does not repeat runs out once and then stays finished.
pub open spec fn restarted(t: Timer, delta: u32) -> Timer {
    if !t.repeating && t.finished {
        Timer { just_finished: false, ..t }
    } else if delta >= t.remaining {
        Timer {
            remaining: if t.repeating {
                t.duration
            } else {
                0
            },
            finished: true,
            just_finished: true,
            ..t
        }
    } else {
        Timer {
            remaining: (t.remaining - delta) as u32,
            finished: false,
            just_finished: false,
            ..t
        }
    }
}

/// The timer that `Timer::new` makes.
pub open spec fn fresh(duration: u32, repeating: bool) -> Timer {
    Timer { duration, remaining: duration, repeating, finished: false, just_finished: false }
}

/// A repeating timer that restarts and is ticked by exactly what is left of
/// its countdown runs out in that tick and has its full duration ahead
/// again.
pub proof fn lemma_exact_tick_fires_once(t: Timer)
    requires
        t.repeating,
    ensures
        restarted(t, t.remaining).just_finished,
        restarted(t, t.remaining).remaining == t.duration,
        restarted(t, t.remaining).duration == t.duration,
{
}

/// A repeating timer that restarts runs out in a tick exactly when the tick
/// is at least as long as what was left, and then has its full duration
/// ahead again, however much longer the tick was.
pub proof fn lemma_repeating_tick(t: Timer, delta: u32)
    requires
        t.repeating,
    ensures
        restarted(t, delta).just_finished <==> delta >= t.remaining,
        restarted(t, delta).just_finished ==> restarted(t, delta).remaining == t.duration,
        !restarted(t, delta).just_finished ==> restarted(t, delta).remaining == t.remaining
            - delta,
        restarted(t, delta).finished == restarted(t, delta).just_finished,
{
}

/// A timer that does not repeat and has run out stays as it is, tick after
/// tick, and does not run out again.
pub proof fn lemma_finished_stays(t: Timer, delta: u32)
    requires
        !t.repeating,
        t.finished,
    ensures
        ticked(t, delta).finished,
        !ticked(t, delta).just_finished,
        ticked(t, delta).remaining == t.remaining,
        restarted(t, delta) == ticked(t, delta),
{
}

/// A timer with time left within its duration runs out in a tick exactly
/// when the tick is at least as long as what was left. Until it runs out it
/// runs the same whether it carries over or restarts; when it runs out, a
/// repeating timer that carries over has as much less than its duration
/// ahead as the tick went beyond the end, less the full rounds in it.
pub proof fn lemma_carry_over(t: Timer, delta: u32)
    requires
        0 < t.remaining <= t.duration,
        t.repeating || !t.finished,
    ensures
        ticked(t, delta).just_finished <==> delta >= t.remaining,
        delta < t.remaining ==> ticked(t, delta) == restarted(t, delta),
        delta >= t.remaining && t.repeating ==> ticked(t, delta).remaining == t.duration - (delta
            - t.remaining) % (t.duration as int),
        0 < ticked(t, delta).remaining <= t.duration || !t.repeating,
{
    let d = t.duration as int;
    let e = elapsed(t) as int;
    let total = e + delta;
    if total >= d && t.repeating {
        let over = delta - t.remaining;
        assert(total == d + over);
        assert((d + over) % d == over % d) by (nonlinear_arith)
            requires
                d > 0,
                over >= 0,
        ;
        assert(0 <= over % d < d) by (nonlinear_arith)
            requires
                d > 0,
                over >= 0,
        ;
    }
}

/// Calls `tick` of the engine's `Timer`, on a timer that `Timer::new` has
/// made with the given duration and on which `set_elapsed` has set what it
/// has behind it, and reads the timer with `elapsed`, `finished` and
/// `just_finished`. The engine adds `delta` to what the timer has behind it;
/// a countdown that has reached its duration has run out, stops at its
/// duration if it does not repeat, and otherwise keeps what is left when the
/// whole rounds are taken off.
#[verifier::external_body]
fn run_engine(duration: u32, elapsed: u32, repeating: bool, delta: u32) -> (r: (u32, bool, bool))
    requires
        elapsed <= duration,
        repeating ==> elapsed < duration,
    ensures
        r == run(duration, elapsed, repeating, delta),
{
    let mut timer =
        bevy::core::Timer::new(bevy::utils::Duration::from_micros(duration as u64), repeating);
    timer.set_elapsed(bevy::utils::Duration::from_micros(elapsed as u64));
    timer.tick(bevy::utils::Duration::from_micros(delta as u64));
    (timer.elapsed().as_micros() as u32, timer.finished(), timer.just_finished())
}

impl Timer {
    /// A timer with its full `duration` ahead.
    pub fn new(duration: u32, repeating: bool) -> (t: Timer)
        ensures
            t == fresh(duration, repeating),
    {
        Timer { duration, remaining: duration, repeating, finished: false, just_finished: false }
    }

    /// How much of its countdown the timer has behind it.
    pub fn elapsed(&self) -> (e: u32)
        ensures
            e == elapsed(*self),
            e <= self.duration,
            self.repeating && self.duration > 0 ==> e < self.duration,
    {
        if self.remaining > self.duration || (self.repeating && self.remaining == 0) {
            0
        } else {
            self.duration - self.remaining
        }
    }

    /// Advances the timer by `delta` microseconds, carrying over into the
    /// next round what `delta` goes beyond the end of a repeating countdown.
    pub fn tick(&mut self, delta: u32)
        ensures
            *final(self) == ticked(*old(self), delta),
    {
        if !self.repeating && self.finished {
            self.just_finished = false;
        } else if self.repeating && self.duration == 0 {
            self.remaining = 0;
            self.finished = true;
            self.just_finished = true;
        } else {
            let behind = self.elapsed();
            let (now_behind, finished, just_finished) = run_engine(
                self.duration,
                behind,
                self.repeating,
                delta,
            );
            proof {
                let total = behind + delta;
                if total >= self.duration && self.repeating {
                    assert(0 <= total % (self.duration as int) < self.duration) by (nonlinear_arith)
                        requires
                            self.duration > 0,
                            total >= 0,
                    ;
                }
            }
            self.remaining = self.duration - now_behind;
            self.finished = finished;
            self.just_finished = just_finished;
        }
    }

    /// Advances the timer by `delta` microseconds, starting it over in full
    /// when it runs out.
    pub fn tick_and_restart(&mut self, delta: u32)
        ensures
            *final(self) == restarted(*old(self), delta),
    {
        if !self.repeating && self.finished {
            self.just_finished = false;
        } else if delta >= self.remaining {
            self.remaining = if self.repeating {
                self.duration
            } else {
                0
            };
            self.finished = true;
            self.just_finished = true;
        } else {
            self.remaining = self.remaining - delta;
            self.finished = false;
            self.just_finished = false;
        }
    }

    /// Whether the countdown had run out at the end of the last tick.
    pub fn finished(&self) -> (b: bool)
        ensures
            b == self.finished,
    {
        self.finished
    }

    /// Whether the countdown ran out during the last tick.
    pub fn just_finished(&self) -> (b: bool)
        ensures
            b == self.just_finished,
    {
        self.just_finished
    }

    /// What is left of the running countdown.
    pub fn remaining(&self) -> (r: u32)
        ensures
            r == self.remaining,
    {
        self.remaining
    }

    /// The full length of one countdown.
    pub fn duration(&self) -> (r: u32)
        ensures
            r == self.duration,
    {
        self.duration
    }
}

} // verus!

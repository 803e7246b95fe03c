//! An 8-bit wall-clock-paced countdown, instantiated twice by the machine
//! (delay and sound).
//!
//! The pacing model counts whole seconds since construction. Within one
//! one-second window at most 60 decrements happen; once 60 have happened the
//! timer rolls into the next window, re-arming from its current value. The
//! clock reading itself comes from the host; everything the timer does with a
//! reading is deterministic and is captured by [`tick_effect`].

use vstd::prelude::*;

verus! {

#[allow(deprecated)]
#[verifier::external_type_specification]
#[verifier::external_body]
pub struct ExInstant(time::Instant);

/// Relies on time::Instant::now: a reading of the host's monotonic clock.
/// Nothing is promised of the value; it is opaque and only ever handed back to
/// the clock to measure elapsed time.
#[allow(deprecated)]
#[verifier::external_body]
fn instant_now() -> time::Instant {
    time::Instant::now()
}

/// Relies on time::Instant::elapsed and time::SignedDuration::whole_seconds:
/// the whole seconds of the signed duration from `start` to now. The result
/// depends on the clock, so nothing is promised of it; it is nonnegative in
/// practice because the clock is monotonic and `start` was read from it
/// earlier in the same process.
#[allow(deprecated)]
#[verifier::external_body]
fn elapsed_whole_seconds(start: &time::Instant) -> i64 {
    start.elapsed().whole_seconds()
}

/// Timer struct, used for the delay and the sound timer. `start_time` anchors
/// the elapsed-seconds clock; `curr_second` records the last whole-second
/// boundary at which a window rolled over; `base_value` is the value the
/// current window started from, and `value` is the current countdown value,
/// so `base_value - value` counts the decrements of the current window.
pub struct Timer {
    pub start_time: time::Instant,
    pub curr_second: u64,
    pub base_value: u8,
    pub value: u8,
}

/// The base/current pair a timer is armed with for a target value `v`: base
/// one above the value, except that arming with 0xFF starts the countdown at
/// 0xFE (base equal to value would stall the tick rule at once).
pub open spec fn arm_values(v: u8) -> (u8, u8) {
    if v == 0xff {
        (0xffu8, 0xfeu8)
    } else {
        (((v + 1) as u8), v)
    }
}

/// What arming a timer with `v` does: the countdown is re-based per
/// [`arm_values`]; the clock anchor and the window boundary stay.
pub open spec fn set_effect(pre: Timer, post: Timer, v: u8) -> bool {
    &&& post.start_time == pre.start_time
    &&& post.curr_second == pre.curr_second
    &&& (post.base_value, post.value) == arm_values(v)
}

/// What one tick does, given the whole seconds `elapsed` since construction.
///
/// While the current window has seen between 1 and 60 decrements-to-go
/// (`0 < base_value - value <= 60`) and the value is nonzero, a tick at or
/// past the window boundary decrements the value by one. After 60 decrements
/// in a window, a tick strictly past the boundary rolls into the next window:
/// a nonzero value is re-armed by the same rule as an explicit set, a zero
/// value settles at 0; the boundary advances either way. Any other tick
/// leaves the timer unchanged.
pub open spec fn tick_effect(pre: Timer, post: Timer, elapsed: u64) -> bool {
    if elapsed >= pre.curr_second && 0 < pre.base_value - pre.value <= 60 && pre.value != 0 {
        post == Timer { value: (pre.value - 1) as u8, ..pre }
    } else if elapsed > pre.curr_second && pre.base_value - pre.value > 60 {
        &&& post.start_time == pre.start_time
        &&& post.curr_second == elapsed
        &&& if pre.value != 0 {
            (post.base_value, post.value) == arm_values(pre.value)
        } else {
            post.base_value == 0 && post.value == 0
        }
    } else {
        post == pre
    }
}

impl Timer {
    /// A fresh, disarmed timer anchored at the current instant.
    pub fn new() -> (t: Self)
        ensures
            t.curr_second == 0,
            t.base_value == 0,
            t.value == 0,
    {
        Timer { start_time: instant_now(), curr_second: 0, base_value: 0x00, value: 0x00 }
    }

    /// Whole seconds since this timer was constructed. The value comes from
    /// the host clock, so nothing is promised of it; every way the timer acts
    /// on a reading is pinned down by [`tick_effect`].
    pub fn get_elapsed_time(&self) -> u64 {
        let s: i64 = elapsed_whole_seconds(&self.start_time);
        if s < 0 {
            0
        } else {
            s as u64
        }
    }

    /// One tick against the host clock: reads the elapsed whole seconds and
    /// advances by [`tick_effect`] for that reading.
    pub fn tick(&mut self)
        ensures
            exists|e: u64| tick_effect(*old(self), *final(self), e),
    {
        let elapsed: u64 = self.get_elapsed_time();
        self.tick_at(elapsed);
    }

    /// One tick, with the elapsed whole seconds supplied by the caller.
    pub fn tick_at(&mut self, elapsed: u64)
        ensures
            tick_effect(*old(self), *final(self), elapsed),
    {
        if elapsed >= self.curr_second && self.base_value > self.value && self.base_value
            - self.value <= 60 && self.value != 0 {
            /* Within the window: one more decrement */
            self.value = self.value - 1;
        } else if elapsed > self.curr_second && self.base_value > self.value && self.base_value
            - self.value > 60 {
            /* 60 decrements have happened: roll into the next window */
            if self.value != 0 {
                let v: u8 = self.value;
                self.set_timer(v);
            } else {
                self.base_value = 0;
            }
            self.curr_second = elapsed;
        }
    }

    /// Arm the timer so it counts down from `time_amount`.
    pub fn set_timer(&mut self, time_amount: u8)
        ensures
            set_effect(*old(self), *final(self), time_amount),
    {
        /* If base and value were set to the same value, tick would never
         * decrement, so 0xFF arms one below its base */
        if time_amount == 0xff {
            self.base_value = time_amount;
            self.value = time_amount - 1;
        } else {
            self.base_value = time_amount + 1;
            self.value = time_amount;
        }
    }
}

} // verus!

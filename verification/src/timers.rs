//! Duration primitives, in milliseconds.
//!
//! Two patterns coexist: a count-down timer that drains toward zero
//! (floating-text lifetimes), and a count-up timer that accumulates time
//! since its last trigger (invulnerability windows, attack cooldowns).
//! A count-up timer only keeps accumulating while it is still below its
//! threshold, so it cannot grow without bound.

use vstd::prelude::*;
use crate::arith::{clip_u64, u64_add_clamped};

verus! {

/// Milliseconds of invulnerability after taking damage.
pub const INVULNERABLE_MS: u64 = 250;

/// A timer that counts down toward zero.
#[derive(Clone, Copy, Debug, PartialEq, Eq, Structural)]
pub struct CountDownTimer {
    pub time_left_ms: u64,
}

impl CountDownTimer {
    pub fn new(time_left_ms: u64) -> (r: CountDownTimer)
        ensures
            r.time_left_ms == time_left_ms,
    {
        CountDownTimer { time_left_ms }
    }

    /// Advance by the frame delta, draining at most to zero; returns the
    /// remaining time.
    pub fn update(&mut self, delta_ms: u64) -> (r: u64)
        ensures
            final (self).time_left_ms == count_down_step(
                old(self).time_left_ms as int,
                delta_ms as int,
            ),
            r == final (self).time_left_ms,
    {
        if self.time_left_ms >= delta_ms {
            self.time_left_ms = self.time_left_ms - delta_ms;
        } else {
            self.time_left_ms = 0;
        }
        self.time_left_ms
    }

    /// True while the timer still has time left.
    pub fn has_elapsed(&self) -> (r: bool)
        ensures
            r == (self.time_left_ms > 0),
    {
        self.time_left_ms > 0
    }

    pub fn set(&mut self, new_time_ms: u64)
        ensures
            final (self).time_left_ms == new_time_ms,
    {
        self.time_left_ms = new_time_ms;
    }

    pub fn remaining(&self) -> (r: u64)
        ensures
            r == self.time_left_ms,
    {
        self.time_left_ms
    }
}

/// Mathematical step of a count-down timer.
pub open spec fn count_down_step(left: int, delta: int) -> int {
    if left >= delta {
        left - delta
    } else {
        0
    }
}

/// A timer that counts time up since its last trigger.
#[derive(Clone, Copy, Debug, PartialEq, Eq, Structural)]
pub struct CooldownTimer {
    pub elapsed_ms: u64,
}

/// Mathematical step of a count-up timer against its threshold: it
/// accumulates only while still below the threshold.
pub open spec fn count_up_step(elapsed: int, delta: int, threshold: int) -> int {
    if elapsed < threshold {
        clip_u64(elapsed + delta)
    } else {
        elapsed
    }
}

impl CooldownTimer {
    pub fn new(elapsed_ms: u64) -> (r: CooldownTimer)
        ensures
            r.elapsed_ms == elapsed_ms,
    {
        CooldownTimer { elapsed_ms }
    }

    /// True while the window guarded by `threshold_ms` is still active.
    pub fn active(&self, threshold_ms: u64) -> (r: bool)
        ensures
            r == (self.elapsed_ms < threshold_ms),
    {
        self.elapsed_ms < threshold_ms
    }

    /// Advance by the frame delta, but only while still below the
    /// threshold; past it the timer stops accumulating until retriggered.
    pub fn advance(&mut self, delta_ms: u64, threshold_ms: u64)
        ensures
            final (self).elapsed_ms == count_up_step(
                old(self).elapsed_ms as int,
                delta_ms as int,
                threshold_ms as int,
            ),
    {
        if self.elapsed_ms < threshold_ms {
            self.elapsed_ms = u64_add_clamped(self.elapsed_ms, delta_ms);
        }
    }

    /// Restart the window: the guarded condition has just triggered.
    pub fn trigger(&mut self)
        ensures
            final (self).elapsed_ms == 0,
    {
        self.elapsed_ms = 0;
    }
}

} // verus!

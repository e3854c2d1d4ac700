//! Throttling of update-phase work on a monotonic microsecond clock.

use vstd::prelude::*;

verus! {

/// Admits at most one update per minimum interval. The interval is
/// derived from a target frame rate; the clock is monotonic and is
/// supplied by the caller as microseconds.
pub struct ThrottleState {
    /// Time of the last admitted update, in microseconds.
    pub last_update_us: u64,
    /// Minimum spacing of admitted updates, in microseconds.
    pub min_interval_us: u64,
}

/// The throttle admits an update at `now_us`.
pub open spec fn throttle_admits(s: ThrottleState, now_us: u64) -> bool {
    now_us - s.last_update_us >= s.min_interval_us
}

/// The throttle state after an admitted update at `now_us`.
pub open spec fn throttle_after_admit(s: ThrottleState, now_us: u64) -> ThrottleState {
    ThrottleState { last_update_us: now_us, min_interval_us: s.min_interval_us }
}

impl ThrottleState {
    /// A throttle admitting at most `fps` updates per second, starting
    /// with the clock at `now_us`.
    pub fn new(fps: u32, now_us: u64) -> (s: ThrottleState)
        requires
            fps >= 1,
        ensures
            s.last_update_us == now_us,
            s.min_interval_us == 1_000_000 as int / fps as int,
    {
        ThrottleState { last_update_us: now_us, min_interval_us: 1_000_000 / (fps as u64) }
    }

    /// Whether an update at `now_us` is admitted; an admitted update
    /// becomes the new reference point, a suppressed one leaves the state
    /// unchanged (it is dropped, not queued).
    pub fn should_update(&mut self, now_us: u64) -> (r: bool)
        requires
            old(self).last_update_us <= now_us,
        ensures
            r == throttle_admits(*old(self), now_us),
            *final(self) == if r {
                throttle_after_admit(*old(self), now_us)
            } else {
                *old(self)
            },
    {
        if now_us - self.last_update_us >= self.min_interval_us {
            self.last_update_us = now_us;
            true
        } else {
            false
        }
    }
}

/// Throttling admits at most one update per minimum interval: whenever an
/// update is admitted at `t1` and the next admitted update comes at `t2`,
/// the two lie at least the minimum interval apart.
pub proof fn lemma_throttle_min_spacing(s: ThrottleState, t1: u64, t2: u64)
    requires
        throttle_admits(s, t1),
        t1 <= t2,
        throttle_admits(throttle_after_admit(s, t1), t2),
    ensures
        t2 - t1 >= s.min_interval_us,
{
}

} // verus!

//! A timer that lets an action happen at most once per interval.
use std::time::{Duration, Instant};
use vstd::prelude::*;

verus! {

#[verifier::external_type_specification]
#[verifier::external_body]
pub struct ExInstant(Instant);

/// Relies on `Instant::now`: the current reading of the monotonic clock.
#[verifier::external_body]
fn instant_now() -> Instant {
    Instant::now()
}

/// Relies on `Instant::elapsed`: the time that has passed since `since`. Nothing
/// is known of the value, which depends on the clock.
#[verifier::external_body]
fn elapsed_since(since: &Instant) -> Duration {
    since.elapsed()
}

/// Relies on `Duration::as_nanos`: the length of `d` in whole nanoseconds.
#[verifier::external_body]
fn duration_nanos(d: &Duration) -> u128 {
    d.as_nanos()
}

/// Timer that permits an action once `gap` nanoseconds have passed since the last
/// time it was told that the action happened (or since it was created).
#[derive(Debug)]
pub struct DoOnInterval {
    /// The interval, in nanoseconds.
    gap: u128,
    /// When the action last happened.
    last: Instant,
}

impl DoOnInterval {
    /// The interval of the timer, in nanoseconds.
    pub closed spec fn gap_nanos(&self) -> nat {
        self.gap as nat
    }

    /// Creates a timer with the given interval, whose clock starts now.
    pub fn new(gap: Duration) -> (r: Self) {
        DoOnInterval { gap: duration_nanos(&gap), last: instant_now() }
    }

    /// Creates a timer with an interval given in nanoseconds, whose clock starts now.
    pub fn from_nanos(gap: u128) -> (r: Self)
        ensures
            r.gap_nanos() == gap,
    {
        DoOnInterval { gap, last: instant_now() }
    }

    /// The decision of the timer once `elapsed` nanoseconds have passed since the
    /// last recorded action.
    pub fn is_due(&self, elapsed: u128) -> (r: bool)
        ensures
            r == (elapsed >= self.gap_nanos()),
    {
        elapsed >= self.gap
    }

    /// Whether the interval has passed since the last recorded action.
    pub fn can_do(&self) -> bool {
        let elapsed = elapsed_since(&self.last);
        self.is_due(duration_nanos(&elapsed))
    }

    /// Records that the action happened now, restarting the interval.
    pub fn update_timer(&mut self)
        ensures
            final(self).gap_nanos() == old(self).gap_nanos(),
    {
        self.last = instant_now();
    }
}

} // verus!

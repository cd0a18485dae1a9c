use vstd::prelude::*;

use std::time::{Duration, Instant};

verus! {

#[verifier::external_type_specification]
#[verifier::external_body]
pub struct ExInstant(Instant);

/// Relies on `Instant::now`: the current reading of a monotonic clock, of which nothing more
/// is known.
#[verifier::external_body]
fn now() -> Instant {
    Instant::now()
}

/// Relies on `Instant::elapsed`: the time that passed since `start`, of which nothing more is
/// known.
#[verifier::external_body]
fn elapsed_since(start: &Instant) -> Duration {
    start.elapsed()
}

/// Measures how long one phase takes; starting a running timer, or stopping one that is not
/// running, does nothing.
#[derive(Debug)]
pub struct Timer {
    start: Option<Instant>,
    elapsed: Option<Duration>,
    running: bool,
}

impl Timer {
    /// A running timer holds its start time.
    #[verifier::type_invariant]
    closed spec fn inv(&self) -> bool {
        self.running ==> self.start is Some
    }

    /// A timer that never ran.
    pub fn new() -> (r: Self)
        ensures
            !r.running(),
            !r.started(),
            r.measured() is None,
    {
        Timer { start: None, elapsed: None, running: false }
    }

    /// Whether the timer is running.
    pub closed spec fn running(&self) -> bool {
        self.running
    }

    /// Whether a start time is held.
    pub closed spec fn started(&self) -> bool {
        self.start is Some
    }

    /// The time that the last run measured.
    pub closed spec fn measured(&self) -> Option<Duration> {
        self.elapsed
    }

    /// Starts the timer, unless it runs already.
    pub fn start(&mut self)
        ensures
            old(self).running() ==> *final(self) == *old(self),
            !old(self).running() ==> final(self).running() && final(self).started()
                && final(self).measured() == old(self).measured(),
    {
        if !self.running {
            let elapsed = self.elapsed;
            *self = Timer { start: Some(now()), elapsed, running: true };
        }
    }

    /// Stops the timer and keeps the time since it started, where it runs.
    pub fn stop(&mut self)
        ensures
            old(self).running() ==> !final(self).running() && !final(self).started()
                && final(self).measured() is Some,
            !old(self).running() ==> *final(self) == *old(self),
    {
        proof {
            use_type_invariant(&*self);
        }
        if self.running {
            match &self.start {
                Some(s) => {
                    let e = elapsed_since(s);
                    *self = Timer { start: None, elapsed: Some(e), running: false };
                },
                None => {},
            }
        }
    }

    /// The time that the last run measured, where one was measured.
    pub fn elapsed(&self) -> (r: Option<Duration>)
        ensures
            r == self.measured(),
    {
        self.elapsed
    }
}

} // verus!

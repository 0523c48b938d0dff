//! The event handler's tick rate; polling the terminal for events is left to the
//! program around the library.

use vstd::prelude::*;
use std::time::Duration;

verus! {

/// The duration of `ms` milliseconds, as `Duration::from_millis` makes it.
pub uninterp spec fn millis_duration(ms: u64) -> Duration;

/// `Duration::from_millis`: the result is the duration of `ms` milliseconds.
#[verifier::external_body]
fn duration_from_millis(ms: u64) -> (d: Duration)
    ensures
        d == millis_duration(ms),
{
    Duration::from_millis(ms)
}

/// Handler that polls for terminal events every tick.
#[derive(Clone, Copy, Debug)]
pub struct Handler {
    tick_rate: Duration,
}

impl Handler {
    /// The time between two polls.
    pub closed spec fn tick_rate_value(&self) -> Duration {
        self.tick_rate
    }

    /// A handler that ticks every `tick_rate_ms` milliseconds.
    pub fn new(tick_rate_ms: u64) -> (r: Handler)
        ensures
            r.tick_rate_value() == millis_duration(tick_rate_ms),
    {
        Handler { tick_rate: duration_from_millis(tick_rate_ms) }
    }

    /// The time between two polls.
    pub fn tick_rate(&self) -> (r: Duration)
        ensures
            r == self.tick_rate_value(),
    {
        self.tick_rate
    }
}

impl Default for Handler {
    /// A handler that ticks every 100 milliseconds.
    fn default() -> (r: Handler)
        ensures
            r.tick_rate_value() == millis_duration(100),
    {
        Handler::new(100)
    }
}

} // verus!

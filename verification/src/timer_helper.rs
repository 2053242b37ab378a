//! Clocks: the real UTC clock, and a fixed one for deterministic runs.

use vstd::prelude::*;

verus! {

/// Relies on chrono::Utc::now: the current Unix timestamp in seconds.
/// Nothing is promised of the clock's value.
#[verifier::external_body]
fn utc_now_timestamp() -> (r: i64) {
    chrono::Utc::now().timestamp()
}

/// A source of the current Unix timestamp in seconds.
pub trait IntoTimerHelper {
    fn now(&self) -> i64;
}

/// The crate's clocks: `Directly` reads the UTC clock; `Mock` always reports
/// the epoch.
#[derive(Clone, Copy, Debug, PartialEq, Eq, Structural)]
pub enum TimerHelper {
    Directly,
    Mock,
}

impl TimerHelper {
    /// Returns a clock of the same kind.
    pub fn creation(&self) -> (r: TimerHelper)
        ensures
            r == *self,
    {
        *self
    }
}

impl IntoTimerHelper for TimerHelper {
    /// `Directly` reads the UTC clock, of whose value nothing is promised;
    /// `Mock` always reports the epoch.
    fn now(&self) -> (r: i64)
        ensures
            *self == TimerHelper::Mock ==> r == 0,
    {
        match self {
            TimerHelper::Directly => utc_now_timestamp(),
            TimerHelper::Mock => 0,
        }
    }
}

} // verus!

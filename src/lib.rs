//! Counters that measure how often a periodic activity happens: frames,
//! physics ticks, polls.
//!
//! Call `update` once at the start of every cycle, with the current reading
//! of a monotonic clock in nanoseconds; `rate` reports the measured rate.
//! Two strategies are offered:
//! - [`DiscreteRateCounter`] counts a fixed number of cycles and then
//!   measures them all at once;
//! - [`RollingRateCounter`] keeps a sliding window of the latest cycle times
//!   and blends their intervals on every cycle.
//!
//! Rates are kept exact, as integers (see [`RateEstimate`]); turning one into
//! a floating-point number of Hertz is left to the caller.
use vstd::prelude::*;

mod discrete;
mod estimate;
mod rolling;

pub use discrete::{DiscreteRateCounter, DiscreteView};
pub use estimate::{elapsed, InvalidWindowSize, RateEstimate, RateView};
pub use rolling::{blend_of, gaps, keep_last, RollingRateCounter, RollingView};

verus! {

/// What both counters offer, so that callers can swap one for the other.
pub trait RateCounter: Sized {
    /// The configured window, in cycles.
    spec fn window(&self) -> u64;

    /// What `rate` reports.
    spec fn estimate(&self) -> RateView;

    /// The number of cycles that the counter measures over.
    fn samples(&self) -> (r: u64)
        ensures
            r == self.window(),
    ;

    /// Sets the number of cycles that the counter measures over. A counter
    /// that cannot work with the given number refuses it and stays as it was.
    fn set_samples(&mut self, samples: u64) -> (r: Result<(), InvalidWindowSize>)
        ensures
            r is Ok ==> final(self).window() == samples,
            r is Err ==> samples == 0 && final(self).window() == old(self).window(),
    ;

    /// Records one cycle, which started at `now` (nanoseconds of a monotonic
    /// clock). Call this at the start of every cycle of the measured activity.
    fn update(&mut self, now: u64)
        ensures
            final(self).window() == old(self).window(),
    ;

    /// The last computed rate. Reading it changes nothing.
    fn rate(&self) -> (r: RateEstimate)
        ensures
            r@ == self.estimate(),
    ;
}

/// Updating by value, for callers that rebind rather than mutate.
pub trait RateCounterImmut: RateCounter {
    /// Consumes the counter and returns it updated as `update` would, with a
    /// cycle that started at `now`.
    fn update_immut(self, now: u64) -> (r: Self)
        ensures
            r.window() == self.window(),
    ;
}

} // verus!

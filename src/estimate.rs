//! The value that a counter reports, and the error of a window of zero cycles.
use vstd::prelude::*;

verus! {

/// A measured rate, held as the integers it is computed from.
///
/// Timestamps and intervals are nanoseconds of a monotonic clock.
#[derive(Debug, Clone, PartialEq, Eq)]
pub enum RateEstimate {
    /// Not enough cycles yet: the rate reads as 0 Hz.
    Unmeasured,
    /// `cycles` cycles took `nanos` nanoseconds: `cycles * 10^9 / nanos` Hz.
    /// With `nanos == 0` the rate is unbounded.
    Measured { cycles: u64, nanos: u64 },
    /// A damped blend over consecutive intervals, oldest first: starting from
    /// `r = 0`, each interval `d` (in seconds) gives `r = samples / ((r + d) / 2)`.
    Blended { samples: u64, intervals: Vec<u64> },
}

/// What a [`RateEstimate`] holds, for contracts.
pub enum RateView {
    Unmeasured,
    Measured { cycles: u64, nanos: u64 },
    Blended { samples: u64, intervals: Seq<u64> },
}

impl View for RateEstimate {
    type V = RateView;

    open spec fn view(&self) -> RateView {
        match self {
            RateEstimate::Unmeasured => RateView::Unmeasured,
            RateEstimate::Measured { cycles, nanos } => RateView::Measured {
                cycles: *cycles,
                nanos: *nanos,
            },
            RateEstimate::Blended { samples, intervals } => RateView::Blended {
                samples: *samples,
                intervals: intervals@,
            },
        }
    }
}

impl RateEstimate {
    /// Whether this is the "no data yet" value, which reads as 0 Hz.
    pub fn is_unmeasured(&self) -> (r: bool)
        ensures
            r == (self@ is Unmeasured),
    {
        match self {
            RateEstimate::Unmeasured => true,
            _ => false,
        }
    }
}

/// Nanoseconds from `from` to `to`, or 0 where `to` comes first.
pub open spec fn elapsed(from: u64, to: u64) -> u64 {
    if to >= from {
        (to - from) as u64
    } else {
        0
    }
}

/// A window of zero cycles was asked of a counter that cannot work with one.
#[derive(Debug, Clone, Copy, PartialEq, Eq, Structural)]
pub struct InvalidWindowSize;

} // verus!

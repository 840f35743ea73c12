//! A counter that recomputes its rate on every cycle from a sliding window of
//! cycle times.
use vstd::prelude::*;

use std::collections::VecDeque;

use crate::estimate::{elapsed, InvalidWindowSize, RateEstimate, RateView};
use crate::RateCounter;

verus! {

/// The last `n` items of `s`, or all of them where it has fewer.
pub open spec fn keep_last(s: Seq<u64>, n: u64) -> Seq<u64> {
    if s.len() <= n {
        s
    } else {
        s.subrange(s.len() - n, s.len() as int)
    }
}

/// The nanoseconds between each pair of consecutive timestamps, oldest first.
pub open spec fn gaps(times: Seq<u64>) -> Seq<u64> {
    if times.len() == 0 {
        Seq::empty()
    } else {
        Seq::new((times.len() - 1) as nat, |i: int| elapsed(times[i], times[i + 1]))
    }
}

/// The rate over a window of timestamps: unmeasured while there is no
/// interval, else the blend of all its intervals.
pub open spec fn blend_of(samples: u64, times: Seq<u64>) -> RateView {
    if times.len() < 2 {
        RateView::Unmeasured
    } else {
        RateView::Blended { samples, intervals: gaps(times) }
    }
}

/// What a [`RollingRateCounter`] holds.
pub struct RollingView {
    /// The latest cycle times, oldest first.
    pub history: Seq<u64>,
    /// The size of the window.
    pub samples: u64,
    /// The rate computed at the last cycle.
    pub rate: RateView,
}

impl RollingView {
    /// The history fits in the window, which holds at least one cycle.
    pub open spec fn within_window(self) -> bool {
        self.samples >= 1 && self.history.len() <= self.samples
    }

    /// A counter just made, with a window of `samples` cycles.
    pub open spec fn fresh(samples: u64) -> RollingView {
        RollingView { history: Seq::empty(), samples, rate: RateView::Unmeasured }
    }

    /// The counter after one more cycle, started at `now`: the oldest times
    /// leave so that `now` fits in the window, and the rate is computed anew
    /// from what is left.
    pub open spec fn marked(self, now: u64) -> RollingView {
        let history = keep_last(self.history.push(now), self.samples);
        RollingView { history, samples: self.samples, rate: blend_of(self.samples, history) }
    }

    /// The counter with a window of `samples` cycles: the oldest times leave
    /// until the history fits. The rate stays until the next cycle.
    pub open spec fn resized(self, samples: u64) -> RollingView {
        RollingView { history: keep_last(self.history, samples), samples, rate: self.rate }
    }

    /// The counter after one cycle at each of `times`, in order.
    pub open spec fn after_marks(self, times: Seq<u64>) -> RollingView
        decreases times.len(),
    {
        if times.len() == 0 {
            self
        } else {
            self.after_marks(times.drop_last()).marked(times.last())
        }
    }
}

/// The history never outgrows the window: a counter just made fits its
/// window, and so does the counter after a cycle at any time, or after a
/// change to any window of at least one cycle.
pub proof fn lemma_history_fits_window(v: RollingView, now: u64, samples: u64)
    requires
        v.within_window(),
        samples >= 1,
    ensures
        RollingView::fresh(samples).within_window(),
        v.marked(now).within_window(),
        v.resized(samples).within_window(),
{
}

/// The window after the cycles of `times` holds the latest of them.
proof fn lemma_window_after_marks(samples: u64, times: Seq<u64>)
    requires
        samples >= 1,
    ensures
        RollingView::fresh(samples).after_marks(times).history == keep_last(times, samples),
        RollingView::fresh(samples).after_marks(times).samples == samples,
        RollingView::fresh(samples).after_marks(times).rate == blend_of(
            samples,
            keep_last(times, samples),
        ),
    decreases times.len(),
{
    if times.len() > 0 {
        let rest = times.drop_last();
        lemma_window_after_marks(samples, rest);
        assert(keep_last(keep_last(rest, samples).push(times.last()), samples) =~= keep_last(
            times,
            samples,
        ));
    } else {
        assert(keep_last(times, samples) =~= Seq::<u64>::empty());
    }
}

/// Before the second cycle there is no interval to blend, and the rate is
/// unmeasured; from the second cycle on, a window of two cycles or more has a
/// blended rate.
pub proof fn lemma_unmeasured_until_second_cycle(samples: u64, times: Seq<u64>)
    requires
        samples >= 1,
    ensures
        (RollingView::fresh(samples).after_marks(times).rate is Unmeasured) <==> (times.len() < 2
            || samples < 2),
{
    lemma_window_after_marks(samples, times);
}

/// A counter that keeps the times of the latest `samples` cycles and, on
/// every cycle, computes the rate from them again. It reacts at once to a new
/// cycle, at a cost that grows with the window.
pub struct RollingRateCounter {
    updates: VecDeque<u64>,
    rate: RateEstimate,
    samples: u64,
}

impl View for RollingRateCounter {
    type V = RollingView;

    closed spec fn view(&self) -> RollingView {
        RollingView { history: self.updates@, samples: self.samples, rate: self.rate@ }
    }
}

/// The intervals between consecutive timestamps of `times`.
fn intervals_of(times: &VecDeque<u64>) -> (r: Vec<u64>)
    ensures
        r@ == gaps(times@),
{
    let mut r: Vec<u64> = Vec::new();
    let mut i: usize = 1;
    while i < times.len()
        invariant
            1 <= i,
            i - 1 <= gaps(times@).len(),
            r@.len() == i - 1,
            forall|j: int| 0 <= j < i - 1 ==> r@[j] == gaps(times@)[j],
        decreases times@.len() - i,
    {
        r.push(times[i].saturating_sub(times[i - 1]));
        i = i + 1;
    }
    assert(r@ =~= gaps(times@));
    r
}

/// A copy of `e`.
fn copy_estimate(e: &RateEstimate) -> (r: RateEstimate)
    ensures
        r@ == e@,
{
    match e {
        RateEstimate::Unmeasured => RateEstimate::Unmeasured,
        RateEstimate::Measured { cycles, nanos } => RateEstimate::Measured {
            cycles: *cycles,
            nanos: *nanos,
        },
        RateEstimate::Blended { samples, intervals } => {
            let copy = intervals.clone();
            assert(copy@ =~= intervals@);
            RateEstimate::Blended { samples: *samples, intervals: copy }
        },
    }
}

impl RollingRateCounter {
    #[verifier::type_invariant]
    spec fn fits_window(&self) -> bool {
        self.samples >= 1 && self.updates@.len() <= self.samples
    }

    /// Makes a counter over a window of `samples` cycles. A window of zero
    /// cycles holds no interval to measure and is refused.
    pub fn new(samples: u64) -> (r: Result<Self, InvalidWindowSize>)
        ensures
            r is Err <==> samples == 0,
            r is Ok ==> r->Ok_0@ == RollingView::fresh(samples),
    {
        if samples == 0 {
            return Err(InvalidWindowSize);
        }
        Ok(RollingRateCounter { updates: VecDeque::new(), rate: RateEstimate::Unmeasured, samples })
    }
}

impl Clone for RollingRateCounter {
    fn clone(&self) -> (r: Self)
        ensures
            r@ == self@,
    {
        proof {
            use_type_invariant(self);
        }
        let updates = self.updates.clone();
        assert(updates@ =~= self.updates@);
        RollingRateCounter { updates, rate: copy_estimate(&self.rate), samples: self.samples }
    }
}

impl RateCounter for RollingRateCounter {
    open spec fn window(&self) -> u64 {
        self@.samples
    }

    open spec fn estimate(&self) -> RateView {
        self@.rate
    }

    fn samples(&self) -> (r: u64) {
        self.samples
    }

    /// A window of zero cycles is refused, and the counter stays as it was.
    fn set_samples(&mut self, samples: u64) -> (r: Result<(), InvalidWindowSize>)
        ensures
            r is Err <==> samples == 0,
            r is Err ==> final(self)@ == old(self)@,
            r is Ok ==> final(self)@ == old(self)@.resized(samples),
            final(self)@.within_window(),
    {
        proof {
            use_type_invariant(&*self);
        }
        if samples == 0 {
            return Err(InvalidWindowSize);
        }
        let ghost before = self.updates@;
        let mut updates: VecDeque<u64> = VecDeque::new();
        std::mem::swap(&mut updates, &mut self.updates);
        while updates.len() as u64 > samples
            invariant
                updates@ == before.subrange(before.len() - updates@.len(), before.len() as int),
                updates@.len() <= before.len(),
                updates@.len() >= samples || updates@.len() == before.len(),
            decreases updates@.len(),
        {
            updates.pop_front();
        }
        assert(updates@ =~= keep_last(before, samples));
        self.samples = samples;
        self.updates = updates;
        Ok(())
    }

    fn update(&mut self, now: u64)
        ensures
            final(self)@ == old(self)@.marked(now),
            final(self)@.within_window(),
    {
        proof {
            use_type_invariant(&*self);
        }
        let samples = self.samples;
        let ghost before = self.updates@;
        let mut updates: VecDeque<u64> = VecDeque::new();
        std::mem::swap(&mut updates, &mut self.updates);
        while updates.len() as u64 >= samples
            invariant
                samples >= 1,
                updates@ == before.subrange(before.len() - updates@.len(), before.len() as int),
                updates@.len() <= before.len(),
                updates@.len() >= samples - 1 || updates@.len() == before.len(),
            decreases updates@.len(),
        {
            updates.pop_front();
        }
        updates.push_back(now);
        assert(updates@ =~= keep_last(before.push(now), samples));
        let intervals = intervals_of(&updates);
        if intervals.len() == 0 {
            self.rate = RateEstimate::Unmeasured;
        } else {
            self.rate = RateEstimate::Blended { samples, intervals };
        }
        self.updates = updates;
    }

    fn rate(&self) -> (r: RateEstimate) {
        copy_estimate(&self.rate)
    }
}

} // verus!

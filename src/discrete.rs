//! A counter that measures its rate once every window of cycles.
use vstd::arithmetic::div_mod::{lemma_fundamental_div_mod, lemma_fundamental_div_mod_converse};
use vstd::prelude::*;

use crate::estimate::{elapsed, InvalidWindowSize, RateEstimate, RateView};
use crate::{RateCounter, RateCounterImmut};

verus! {

/// What a [`DiscreteRateCounter`] holds.
pub struct DiscreteView {
    /// Cycles counted since the rate was last computed.
    pub cycles: u64,
    /// When the rate was last computed (or the counter made).
    pub anchor: u64,
    /// The last computed rate.
    pub rate: RateView,
    /// Cycles per measurement.
    pub samples: u64,
}

impl DiscreteView {
    /// A counter made at `now`.
    pub open spec fn fresh(samples: u64, now: u64) -> DiscreteView {
        DiscreteView { cycles: 0, anchor: now, rate: RateView::Unmeasured, samples }
    }

    /// The counter after one more cycle, started at `now`: once the window is
    /// full, the cycles over the time since the anchor become the rate, and
    /// counting starts again from `now`.
    pub open spec fn marked(self, now: u64) -> DiscreteView {
        if self.cycles + 1 >= self.samples {
            DiscreteView {
                cycles: 0,
                anchor: now,
                rate: RateView::Measured {
                    cycles: (self.cycles + 1) as u64,
                    nanos: elapsed(self.anchor, now),
                },
                samples: self.samples,
            }
        } else {
            DiscreteView { cycles: (self.cycles + 1) as u64, ..self }
        }
    }

    /// The counter after one cycle at each of `times`, in order.
    pub open spec fn after_marks(self, times: Seq<u64>) -> DiscreteView
        decreases times.len(),
    {
        if times.len() == 0 {
            self
        } else {
            self.after_marks(times.drop_last()).marked(times.last())
        }
    }
}

/// Whether each time of `times` comes after `start` and after the times
/// before it.
pub open spec fn strictly_after(start: u64, times: Seq<u64>) -> bool {
    &&& times.len() > 0 ==> start < times[0]
    &&& forall|i: int, j: int| 0 <= i < j < times.len() ==> times[i] < times[j]
}

/// One more cycle moves the count one step round a window of `n`.
proof fn lemma_count_step(n: int, k: int)
    requires
        n >= 1,
        k >= 1,
    ensures
        0 <= (k - 1) % n < n,
        (k - 1) % n + 1 == n ==> k % n == 0,
        (k - 1) % n + 1 < n ==> k % n == (k - 1) % n + 1,
{
    lemma_fundamental_div_mod(k - 1, n);
    let q = (k - 1) / n;
    let r = (k - 1) % n;
    assert(0 <= r < n) by {
        vstd::arithmetic::div_mod::lemma_mod_pos_bound(k - 1, n);
    }
    if r + 1 == n {
        assert(k == (q + 1) * n + 0) by (nonlinear_arith)
            requires
                k - 1 == n * q + r,
                r + 1 == n,
        ;
        lemma_fundamental_div_mod_converse(k, n, q + 1, 0);
    } else {
        assert(k == q * n + (r + 1)) by (nonlinear_arith)
            requires
                k - 1 == n * q + r,
        ;
        lemma_fundamental_div_mod_converse(k, n, q, r + 1);
    }
}

/// Where a fresh counter stands after the first `k` cycles of `times`.
proof fn lemma_after_first_marks(samples: u64, start: u64, times: Seq<u64>, k: int)
    requires
        samples >= 1,
        0 <= k <= times.len(),
    ensures
        ({
            let c = DiscreteView::fresh(samples, start).after_marks(times.take(k));
            &&& c.samples == samples
            &&& c.cycles == k % (samples as int)
            &&& c.anchor == (if k < samples {
                start
            } else {
                times[k - k % (samples as int) - 1]
            })
            &&& (c.rate is Unmeasured) <==> k < samples
        }),
    decreases k,
{
    let n = samples as int;
    if k == 0 {
        assert(times.take(0) =~= Seq::<u64>::empty());
    } else {
        lemma_after_first_marks(samples, start, times, k - 1);
        lemma_count_step(n, k);
        assert(times.take(k).drop_last() =~= times.take(k - 1));
        assert(times.take(k).last() == times[k - 1]);
        if k - 1 < n {
            vstd::arithmetic::div_mod::lemma_small_mod((k - 1) as nat, n as nat);
        }
    }
}

/// A counter that counts `samples` cycles, then computes the rate over them
/// and starts counting again. It reacts to a change of rate only after a full
/// window, but reads the clock's value only once per window.
///
/// A window of 0 cycles is accepted and behaves as a window of 1: the rate is
/// computed on every cycle.
#[derive(Clone, Copy)]
pub struct DiscreteRateCounter {
    updates_since_clear: u64,
    time_at_last_clear: u64,
    rate: Option<(u64, u64)>,
    samples: u64,
}

impl View for DiscreteRateCounter {
    type V = DiscreteView;

    closed spec fn view(&self) -> DiscreteView {
        DiscreteView {
            cycles: self.updates_since_clear,
            anchor: self.time_at_last_clear,
            rate: match self.rate {
                None => RateView::Unmeasured,
                Some((cycles, nanos)) => RateView::Measured { cycles, nanos },
            },
            samples: self.samples,
        }
    }
}

impl DiscreteRateCounter {
    #[verifier::type_invariant]
    spec fn counts_in_range(&self) -> bool {
        self.updates_since_clear < u64::MAX
    }

    /// Makes a counter, at `now`, that computes the rate every `samples`
    /// cycles. Until the first window is full the rate is unmeasured.
    pub fn new(samples: u64, now: u64) -> (r: Self)
        ensures
            r@ == DiscreteView::fresh(samples, now),
    {
        DiscreteRateCounter { updates_since_clear: 0, time_at_last_clear: now, rate: None, samples }
    }

    /// The number of cycles since the rate was last computed.
    pub fn rate_age_cycles(&self) -> (r: u64)
        ensures
            r == self@.cycles,
    {
        self.updates_since_clear
    }

    /// The nanoseconds from the last computation of the rate to `now`.
    pub fn rate_age_duration(&self, now: u64) -> (r: u64)
        ensures
            r == elapsed(self@.anchor, now),
    {
        now.saturating_sub(self.time_at_last_clear)
    }
}

impl RateCounter for DiscreteRateCounter {
    open spec fn window(&self) -> u64 {
        self@.samples
    }

    open spec fn estimate(&self) -> RateView {
        self@.rate
    }

    fn samples(&self) -> (r: u64) {
        self.samples
    }

    /// Every window is accepted; the count of cycles is kept as it is.
    fn set_samples(&mut self, samples: u64) -> (r: Result<(), InvalidWindowSize>)
        ensures
            r is Ok,
            final(self)@ == (DiscreteView { samples, ..old(self)@ }),
    {
        proof {
            use_type_invariant(&*self);
        }
        self.samples = samples;
        Ok(())
    }

    fn update(&mut self, now: u64)
        ensures
            final(self)@ == old(self)@.marked(now),
    {
        proof {
            use_type_invariant(&*self);
        }
        let cycles = self.updates_since_clear + 1;
        if cycles >= self.samples {
            self.rate = Some((cycles, now.saturating_sub(self.time_at_last_clear)));
            self.time_at_last_clear = now;
            self.updates_since_clear = 0;
        } else {
            self.updates_since_clear = cycles;
        }
    }

    fn rate(&self) -> (r: RateEstimate) {
        match self.rate {
            None => RateEstimate::Unmeasured,
            Some((cycles, nanos)) => RateEstimate::Measured { cycles, nanos },
        }
    }
}

/// The count of cycles since the last computation of the rate runs
/// `0, 1, ..., n - 1, 0, 1, ...` in step with the cycles, for a window of
/// `n >= 1` cycles that stays as it was made.
pub proof fn lemma_age_runs_round_the_window(samples: u64, start: u64, times: Seq<u64>, k: int)
    requires
        samples >= 1,
        0 <= k <= times.len(),
    ensures
        DiscreteView::fresh(samples, start).after_marks(times.take(k)).cycles == k % (
        samples as int),
{
    lemma_after_first_marks(samples, start, times, k);
}

/// For a window of `n >= 1` cycles that stays as it was made, the rate is
/// unmeasured until the `n`-th cycle, and it changes on cycles `n`, `2n`,
/// `3n`, ... and on no other: there it becomes the `n` cycles over the time
/// since the last computation, which is more than zero where the clock's
/// readings go strictly up.
pub proof fn lemma_rate_computed_once_per_window(
    samples: u64,
    start: u64,
    times: Seq<u64>,
    k: int,
)
    requires
        samples >= 1,
        1 <= k <= times.len(),
    ensures
        ({
            let fresh = DiscreteView::fresh(samples, start);
            let before = fresh.after_marks(times.take(k - 1));
            let after = fresh.after_marks(times.take(k));
            &&& (after.rate is Unmeasured) <==> k < samples
            &&& k % (samples as int) != 0 ==> after.rate == before.rate && after.anchor
                == before.anchor
            &&& k % (samples as int) == 0 ==> after.anchor == times[k - 1] && after.rate
                == (RateView::Measured {
                cycles: samples,
                nanos: elapsed(before.anchor, times[k - 1]),
            })
            &&& k % (samples as int) == 0 && strictly_after(start, times) ==> elapsed(
                before.anchor,
                times[k - 1],
            ) > 0
        }),
{
    let n = samples as int;
    lemma_after_first_marks(samples, start, times, k - 1);
    lemma_after_first_marks(samples, start, times, k);
    lemma_count_step(n, k);
    assert(times.take(k).drop_last() =~= times.take(k - 1));
}

impl RateCounterImmut for DiscreteRateCounter {
    fn update_immut(self, now: u64) -> (r: Self)
        ensures
            r@ == self@.marked(now),
    {
        let mut next = self;
        next.update(now);
        next
    }
}

} // verus!

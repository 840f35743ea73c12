use std::time::{Duration, Instant};

use update_rate::{InvalidWindowSize, RateCounter, RateEstimate, RollingRateCounter};

/// Nanoseconds since `origin`.
fn clock(origin: Instant) -> u64 {
    origin.elapsed().as_nanos() as u64
}

/// The rate in Hertz.
fn hertz(r: &RateEstimate) -> f64 {
    match r {
        RateEstimate::Unmeasured => 0.0,
        RateEstimate::Measured { cycles, nanos } => {
            let seconds = (nanos / 1_000_000_000) as f64 + (nanos % 1_000_000_000) as f64 * 1.0e-9;
            *cycles as f64 / seconds
        }
        RateEstimate::Blended { samples, intervals } => {
            let mut rate = 0.0;
            for d in intervals {
                let seconds = (d / 1_000_000_000) as f64 + (d % 1_000_000_000) as f64 * 1e-9;
                rate = *samples as f64 / ((rate + seconds) / 2.0);
            }
            rate
        }
    }
}

fn blended(samples: u64, intervals: &[u64]) -> RateEstimate {
    RateEstimate::Blended { samples, intervals: intervals.to_vec() }
}

#[test]
fn test_rolling_rate_counter() {
    let origin = Instant::now();
    let mut c = RollingRateCounter::new(10).unwrap();
    assert!(
        hertz(&c.rate()) == 0.0,
        "Counter should have no data before it gets enough samples (has {}).",
        hertz(&c.rate())
    );

    let sample_period = Duration::from_millis(10);
    for _ in 1..11 {
        let start = Instant::now();
        while start.elapsed() < sample_period {}

        c.update(clock(origin));
    }

    let difference = 100.0 - hertz(&c.rate());
    assert!(
        difference < 10.0,
        "Counter rate {} should be closer to actual rate 100.0.",
        hertz(&c.rate())
    );
}

#[test]
fn rolling_zero_window_is_refused() {
    for _ in 0..3 {
        assert_eq!(RollingRateCounter::new(0).err(), Some(InvalidWindowSize));
    }
    let mut c = RollingRateCounter::new(3).unwrap();
    c.update(10);
    c.update(25);
    for _ in 0..3 {
        assert_eq!(c.set_samples(0), Err(InvalidWindowSize));
        assert_eq!(c.samples(), 3);
        assert_eq!(c.rate(), blended(3, &[15]));
    }
}

#[test]
fn rolling_unmeasured_before_second_mark() {
    let mut c = RollingRateCounter::new(10).unwrap();
    assert_eq!(c.rate(), RateEstimate::Unmeasured);
    c.update(1_000);
    assert_eq!(c.rate(), RateEstimate::Unmeasured);
    c.update(11_000);
    assert_eq!(c.rate(), blended(10, &[10_000]));
    assert!(hertz(&c.rate()) > 0.0);
}

#[test]
fn rolling_window_keeps_latest_times() {
    let mut c = RollingRateCounter::new(3).unwrap();
    for t in [10u64, 30, 35, 50, 80] {
        c.update(t);
    }
    assert_eq!(c.rate(), blended(3, &[15, 30]));
}

#[test]
fn rolling_shrinking_window_evicts_oldest() {
    let mut c = RollingRateCounter::new(5).unwrap();
    for t in [0u64, 10, 30, 60, 100] {
        c.update(t);
    }
    assert_eq!(c.rate(), blended(5, &[10, 20, 30, 40]));
    assert_eq!(c.set_samples(2), Ok(()));
    assert_eq!(c.samples(), 2);
    // The rate stays until the next cycle.
    assert_eq!(c.rate(), blended(5, &[10, 20, 30, 40]));
    c.update(150);
    assert_eq!(c.rate(), blended(2, &[50]));
    assert_eq!(c.set_samples(4), Ok(()));
    c.update(160);
    assert_eq!(c.rate(), blended(4, &[50, 10]));
}

#[test]
fn rolling_window_of_one_never_measures() {
    let mut c = RollingRateCounter::new(1).unwrap();
    for t in [5u64, 9, 40] {
        c.update(t);
        assert_eq!(c.rate(), RateEstimate::Unmeasured);
    }
}

#[test]
fn rolling_end_to_end_ten_marks() {
    let mut c = RollingRateCounter::new(10).unwrap();
    c.update(0);
    assert_eq!(hertz(&c.rate()), 0.0);
    c.update(10_000_000);
    assert!(hertz(&c.rate()) > 0.0);
    for k in 2..10u64 {
        c.update(k * 10_000_000);
    }
    let r = c.rate();
    assert_eq!(r, blended(10, &[10_000_000; 9]));
    // The damped blend of nine 10 ms intervals over a window of 10.
    assert!((hertz(&r) - 400.012).abs() < 0.001);
    assert!(100.0 - hertz(&r) < 10.0);
}

#[test]
fn rolling_single_interval_formula() {
    let mut c = RollingRateCounter::new(4).unwrap();
    c.update(1_000_000_000);
    c.update(1_500_000_000);
    let r = c.rate();
    assert_eq!(r, blended(4, &[500_000_000]));
    // samples / ((0 + 0.5) / 2)
    assert!((hertz(&r) - 16.0).abs() < 1e-9);
}

#[test]
fn rolling_clock_going_back_counts_as_no_time() {
    let mut c = RollingRateCounter::new(3).unwrap();
    c.update(100);
    c.update(40);
    c.update(90);
    assert_eq!(c.rate(), blended(3, &[0, 50]));
}

#[test]
fn rolling_rate_query_is_stable() {
    let mut c = RollingRateCounter::new(3).unwrap();
    c.update(1);
    c.update(4);
    c.update(9);
    let first = c.rate();
    for _ in 0..5 {
        assert_eq!(c.rate(), first);
    }
}

#[test]
fn counters_share_one_interface() {
    fn drive<C: RateCounter>(c: &mut C) -> RateEstimate {
        for t in [0u64, 100, 200] {
            c.update(t);
        }
        c.rate()
    }
    let mut d = update_rate::DiscreteRateCounter::new(2, 0);
    let mut r = RollingRateCounter::new(2).unwrap();
    assert_eq!(drive(&mut d), RateEstimate::Measured { cycles: 2, nanos: 100 });
    assert_eq!(drive(&mut r), blended(2, &[100]));
}

#[test]
fn rolling_clone_is_independent() {
    let mut c = RollingRateCounter::new(3).unwrap();
    c.update(0);
    c.update(20);
    let copy = c.clone();
    c.update(50);
    assert_eq!(copy.rate(), blended(3, &[20]));
    assert_eq!(c.rate(), blended(3, &[20, 30]));
    assert_eq!(copy.samples(), 3);
}

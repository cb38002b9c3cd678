//! Warm-up accounting, plan derivation, and the time primitives.

use farcri::error::LinkError;
use farcri::plan::{compute_plan, WarmupState, SAMPLE_CAPACITY};
use farcri::protocol::BenchmarkConfig;
use farcri::time::{u64_to_string, Duration, Instant};

const MS: u64 = 1_000_000;

fn config(warm_up_ms: u64, measurement_ms: u64, sample_size: usize) -> BenchmarkConfig {
    BenchmarkConfig {
        measurement_time: Duration::from_nanos(measurement_ms * MS),
        nresamples: 100_000,
        sample_size,
        warm_up_time: Duration::from_nanos(warm_up_ms * MS),
    }
}

#[test]
fn warm_up_doubles_until_goal_exceeded() {
    // A routine taking exactly 1 ms per iteration: a call of n iterations
    // takes n ms. The iteration count must double every call and the
    // accumulated elapsed time must end strictly above the goal.
    let goal = Duration::from_nanos(100 * MS);
    let mut st = WarmupState::new();
    let mut expected_iters = 1u64;
    let mut calls = Vec::new();
    loop {
        assert_eq!(st.iters, expected_iters);
        calls.push(st.iters);
        let call_elapsed = Duration::from_nanos(st.iters * MS);
        let done = st.record(call_elapsed, goal).unwrap();
        if done {
            break;
        }
        expected_iters *= 2;
    }
    assert_eq!(calls, vec![1, 2, 4, 8, 16, 32, 64]);
    assert_eq!(st.total_iters, 127);
    assert_eq!(st.elapsed.as_nanos(), 127 * MS);
    assert!(st.elapsed.as_nanos() > goal.as_nanos());
}

#[test]
fn warm_up_reports_overflow() {
    let goal = Duration::from_nanos(u64::MAX);
    let mut st = WarmupState::new();
    st.total_iters = u64::MAX - 1;
    st.iters = 2;
    assert_eq!(
        st.record(Duration::from_nanos(1), goal),
        Err(LinkError::IterationCountOverflow)
    );
}

#[test]
fn plan_matches_documented_formula() {
    // warm_up_time 100 ms, measurement_time 200 ms, sample_size 10, and a
    // routine of exactly 1 ms per call: the doubling warm-up ends with
    // 127 iterations in 127 ms, and the budget formula gives
    // floor((127 * 200 ms / 127 ms) / 10) = 20 iterations per sample.
    let goal = Duration::from_nanos(100 * MS);
    let mut st = WarmupState::new();
    loop {
        let call_elapsed = Duration::from_nanos(st.iters * MS);
        if st.record(call_elapsed, goal).unwrap() {
            break;
        }
    }
    assert_eq!((st.total_iters, st.elapsed.as_nanos()), (127, 127 * MS));
    let plan = compute_plan(st.total_iters, st.elapsed, &config(100, 200, 10), SAMPLE_CAPACITY)
        .unwrap();
    assert_eq!(plan.num_samples, 10);
    assert_eq!(plan.iters_per_sample, 20);
    assert_eq!(plan.total_iters, 200);
}

#[test]
fn plan_clamps_sample_size() {
    // A configured sample size of 0 is clamped up to 1.
    let plan = compute_plan(100, Duration::from_nanos(MS), &config(1, 1, 0), SAMPLE_CAPACITY)
        .unwrap();
    assert_eq!(plan.num_samples, 1);
    // One exceeding the capacity is clamped down to it.
    let plan = compute_plan(100, Duration::from_nanos(MS), &config(1, 1, 100_000), SAMPLE_CAPACITY)
        .unwrap();
    assert_eq!(plan.num_samples, SAMPLE_CAPACITY);
}

#[test]
fn plan_iters_per_sample_at_least_one() {
    // A tiny budget (slow routine, short measurement) still plans one
    // iteration per sample, and the total is the exact product.
    let plan = compute_plan(
        1,
        Duration::from_nanos(3_000 * MS),
        &config(3_000, 1, 50),
        SAMPLE_CAPACITY,
    )
    .unwrap();
    assert_eq!(plan.iters_per_sample, 1);
    assert_eq!(plan.total_iters, plan.iters_per_sample * plan.num_samples as u64);
    assert_eq!(plan.total_iters, 50);
}

#[test]
fn plan_rejects_overflowing_totals() {
    // An absurdly fast routine against a huge measurement budget pushes
    // the per-sample count past 64 bits.
    let cfg = BenchmarkConfig {
        measurement_time: Duration::from_nanos(u64::MAX),
        nresamples: 100_000,
        sample_size: 1,
        warm_up_time: Duration::from_nanos(1),
    };
    assert_eq!(
        compute_plan(u64::MAX, Duration::from_nanos(1), &cfg, SAMPLE_CAPACITY),
        Err(LinkError::IterationCountOverflow)
    );
}

#[test]
fn instant_subtraction_is_checked() {
    let a = Instant::from_nanos(100);
    let b = Instant::from_nanos(260);
    assert_eq!(b.checked_duration_since(a), Some(Duration::from_nanos(160)));
    assert_eq!(a.checked_duration_since(b), None);
    assert_eq!(a.as_nanos(), 100);
}

#[test]
fn duration_addition_is_checked() {
    let a = Duration::from_nanos(u64::MAX - 1);
    assert_eq!(a.checked_add(Duration::from_nanos(1)), Some(Duration::from_nanos(u64::MAX)));
    assert_eq!(a.checked_add(Duration::from_nanos(2)), None);
}

#[test]
fn duration_display_picks_units_by_magnitude() {
    assert_eq!(Duration::from_nanos(0).to_string(), "0ns");
    assert_eq!(Duration::from_nanos(4_999).to_string(), "4999ns");
    assert_eq!(Duration::from_nanos(5_000).to_string(), "5\u{3bc}s");
    assert_eq!(Duration::from_nanos(4_999_999).to_string(), "4999\u{3bc}s");
    assert_eq!(Duration::from_nanos(5_000_000).to_string(), "5ms");
    assert_eq!(Duration::from_nanos(5_000_000_000).to_string(), "5s");
    assert_eq!(Duration::from_nanos(u64::MAX).to_string(), "18446744073s");
}

#[test]
fn decimal_rendering_is_exact() {
    assert_eq!(u64_to_string(0), "0");
    assert_eq!(u64_to_string(7), "7");
    assert_eq!(u64_to_string(1234567890), "1234567890");
    assert_eq!(u64_to_string(u64::MAX), "18446744073709551615");
}

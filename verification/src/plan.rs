//! The warm-up accounting and the sampling plan.
//!
//! Warm-up starts at one iteration per call and doubles after each call
//! until the accumulated elapsed time exceeds the goal. The sampling plan
//! turns the warm-up result into a fixed per-sample iteration count
//! ("flat" sampling): the estimated total budget is scaled from the
//! warm-up rate, split over the clamped sample count, and floored at one
//! iteration per sample.

use vstd::prelude::*;

use crate::error::LinkError;
use crate::protocol::BenchmarkConfig;
use crate::time::Duration;

verus! {

/// How many samples the engine can store for one benchmark.
pub const SAMPLE_CAPACITY: usize = 128;

/// The configured sample count clamped to `[1, capacity]`.
pub open spec fn spec_clamped_samples(sample_size: usize, capacity: usize) -> usize {
    if sample_size < 1 {
        1usize
    } else if sample_size > capacity {
        capacity
    } else {
        sample_size
    }
}

/// The estimated total iteration budget: warm-up iterations scaled by
/// measurement time over warm-up elapsed time.
pub open spec fn spec_budget(wu_iters: u64, wu_elapsed: u64, m_time: u64) -> int
    recommends
        wu_elapsed > 0,
{
    (wu_iters * m_time) / (wu_elapsed as int)
}

/// Iterations per sample: the budget split over the samples, at least 1.
pub open spec fn spec_iters_per_sample(budget: int, num_samples: usize) -> int
    recommends
        num_samples >= 1,
{
    let per = budget / (num_samples as int);
    if per < 1 {
        1int
    } else {
        per
    }
}

/// The measurement plan derived from the warm-up result.
#[derive(Debug, Copy, Clone, PartialEq, Eq, Structural)]
pub struct SamplingPlan {
    /// How many samples will be stored.
    pub num_samples: usize,
    /// How many iterations each sample runs.
    pub iters_per_sample: u64,
    /// Exactly `iters_per_sample * num_samples`.
    pub total_iters: u64,
}

/// Derives the measurement plan. The sample count is clamped to
/// `[1, capacity]`; iterations per sample is at least 1 whatever the
/// budget; the total is the exact product, and an overflow of either the
/// per-sample count or the product is a fatal configuration error.
pub fn compute_plan(
    wu_iters: u64,
    wu_elapsed: Duration,
    config: &BenchmarkConfig,
    capacity: usize,
) -> (r: Result<SamplingPlan, LinkError>)
    requires
        wu_elapsed.0 > 0,
        capacity >= 1,
    ensures
        ({
            let ns = spec_clamped_samples(config.sample_size, capacity);
            let per = spec_iters_per_sample(
                spec_budget(wu_iters, wu_elapsed.0, config.measurement_time.0),
                ns,
            );
            if per <= u64::MAX && per * ns <= u64::MAX {
                r == Ok::<SamplingPlan, LinkError>(
                    SamplingPlan {
                        num_samples: ns,
                        iters_per_sample: per as u64,
                        total_iters: (per * ns) as u64,
                    },
                )
            } else {
                r == Err::<SamplingPlan, LinkError>(LinkError::IterationCountOverflow)
            }
        }),
{
    let ghost gns = spec_clamped_samples(config.sample_size, capacity);
    let num_samples: usize = if config.sample_size < 1 {
        1
    } else if config.sample_size > capacity {
        capacity
    } else {
        config.sample_size
    };
    proof {
        assert(wu_iters as int * config.measurement_time.0 as int <= u64::MAX as int
            * u64::MAX as int) by (nonlinear_arith)
            requires
                wu_iters <= u64::MAX,
                config.measurement_time.0 <= u64::MAX,
        ;
    }
    let budget: u128 = (wu_iters as u128) * (config.measurement_time.as_nanos() as u128)
        / (wu_elapsed.as_nanos() as u128);
    let per128: u128 = budget / (num_samples as u128);
    let per128: u128 = if per128 < 1 {
        1
    } else {
        per128
    };
    proof {
        assert(per128 as int == spec_iters_per_sample(
            spec_budget(wu_iters, wu_elapsed.0, config.measurement_time.0),
            gns,
        ));
    }
    if per128 > u64::MAX as u128 {
        return Err(LinkError::IterationCountOverflow);
    }
    let per: u64 = per128 as u64;
    match per.checked_mul(num_samples as u64) {
        Some(total) => Ok(
            SamplingPlan { num_samples, iters_per_sample: per, total_iters: total },
        ),
        None => Err(LinkError::IterationCountOverflow),
    }
}

/// The running warm-up accounting: the iteration count of the next call,
/// and the totals accumulated so far.
#[derive(Debug, Copy, Clone, PartialEq, Eq, Structural)]
pub struct WarmupState {
    /// Iterations the next call will run.
    pub iters: u64,
    /// Iterations accumulated over all calls so far.
    pub total_iters: u64,
    /// Wall time accumulated over all calls so far.
    pub elapsed: Duration,
}

impl WarmupState {
    /// The accounting before the first call: one iteration, nothing
    /// accumulated.
    pub fn new() -> (r: Self)
        ensures
            r.iters == 1,
            r.total_iters == 0,
            r.elapsed.0 == 0,
    {
        WarmupState { iters: 1, total_iters: 0, elapsed: Duration(0) }
    }

    /// Accounts for one finished call that took `call_elapsed`: the totals
    /// absorb the call, and — unless the goal is now exceeded — the
    /// iteration count strictly doubles for the next call. Returns whether
    /// the goal is exceeded; overflow of either total is a fatal error.
    pub fn record(&mut self, call_elapsed: Duration, goal: Duration) -> (r: Result<
        bool,
        LinkError,
    >)
        ensures
            match r {
                Ok(done) => {
                    &&& final(self).total_iters == old(self).total_iters + old(self).iters
                    &&& final(self).elapsed.0 == old(self).elapsed.0 + call_elapsed.0
                    &&& done == (final(self).elapsed.0 > goal.0)
                    &&& done ==> final(self).iters == old(self).iters
                    &&& !done ==> final(self).iters == ((old(self).iters * 2) as int
                        % 0x1_0000_0000_0000_0000) as u64
                },
                Err(e) => {
                    &&& e == LinkError::IterationCountOverflow
                    &&& old(self).total_iters + old(self).iters > u64::MAX || old(self).elapsed.0
                        + call_elapsed.0 > u64::MAX
                },
            },
    {
        let total = match self.total_iters.checked_add(self.iters) {
            Some(t) => t,
            None => {
                return Err(LinkError::IterationCountOverflow);
            },
        };
        let elapsed = match self.elapsed.checked_add(call_elapsed) {
            Some(e) => e,
            None => {
                return Err(LinkError::IterationCountOverflow);
            },
        };
        self.total_iters = total;
        self.elapsed = elapsed;
        if elapsed.as_nanos() > goal.as_nanos() {
            Ok(true)
        } else {
            self.iters = self.iters.wrapping_mul(2);
            Ok(false)
        }
    }
}

} // verus!

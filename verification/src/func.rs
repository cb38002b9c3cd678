//! One registered benchmark routine and the measurement procedure run on
//! it: warm-up, plan derivation, and the flat sampling loop. The link is
//! threaded by value through the measurement phases.

use vstd::prelude::*;

use crate::bencher::Bencher;
use crate::error::LinkError;
use crate::link::{LinkIo, ProxyLink};
use crate::plan::{
    compute_plan, spec_budget, spec_clamped_samples, spec_iters_per_sample, SamplingPlan,
    WarmupState, SAMPLE_CAPACITY,
};
use crate::protocol::{
    lemma_instants_refl, lemma_instants_trans, lemma_queries_refl, lemma_queries_trans,
    lemma_reports_of_queries, lemma_reports_push, spec_appends_only_instants,
    spec_appends_only_queries, spec_reports, BenchmarkConfig, UpstreamMessage,
    UpstreamMessageView,
};
use crate::time::Duration;

verus! {

/// How many routine calls a warm-up may make before the engine declares
/// the clock source broken. Unreachable with any advancing clock.
pub const WARMUP_CALL_BUDGET: u64 = 0xffff_ffff;

/// A benchmark routine under test. One `run` must drive the given
/// [`Bencher`] exactly once through [`Bencher::iter`] or
/// [`Bencher::iter_custom`]; through the bencher's public face it can
/// put nothing on the link but the timing queries those methods make.
pub trait BenchRoutine {
    /// One invocation of the routine under the engine's timer.
    fn run<Io: LinkIo>(&mut self, b: &mut Bencher<Io>)
        ensures
            spec_appends_only_queries(old(b).spec_sent(), final(b).spec_sent()),
            crate::utils::spec_prefix_of(old(b).spec_received(), final(b).spec_received()),
            final(b)@.error is None ==> spec_appends_only_instants(
                old(b).spec_received(),
                final(b).spec_received(),
            ),
            match final(b)@.error {
                Some(e) => old(b)@.error == Some(e) || (e != LinkError::DidNotIterate && e
                    != LinkError::IterationCountOverflow && e != LinkError::BadHandshake),
                None => true,
            },
    ;
}

/// A registered benchmark function.
pub struct Function<'a, F: BenchRoutine> {
    f: &'a mut F,
}

impl<'a, F: BenchRoutine> Function<'a, F> {
    /// Wraps a routine for the engine.
    pub fn new(f: &'a mut F) -> Function<'a, F> {
        Function { f }
    }

    /// Runs the routine once per sample, `iters_per_sample` iterations
    /// each, and collects one measured value per sample.
    #[verifier::loop_isolation(false)]
    pub fn bench<Io: LinkIo>(
        &mut self,
        link: ProxyLink<Io>,
        iters_per_sample: u64,
        num_samples: usize,
    ) -> (r: (ProxyLink<Io>, Result<Vec<u64>, LinkError>))
        ensures
            spec_appends_only_queries(link.spec_sent(), r.0.spec_sent()),
            crate::utils::spec_prefix_of(link.spec_received(), r.0.spec_received()),
            match r.1 {
                Ok(v) => v@.len() == num_samples && spec_appends_only_instants(
                    link.spec_received(),
                    r.0.spec_received(),
                ),
                Err(e) => e != LinkError::BadHandshake && e != LinkError::IterationCountOverflow,
            },
    {
        let ghost s0 = link.spec_sent();
        let ghost r0 = link.spec_received();
        let mut b = Bencher::new(link, iters_per_sample, false);
        proof {
            assert(b.spec_sent() == s0);
            assert(b.spec_received() == r0);
        }
        let mut out: Vec<u64> = Vec::new();
        let mut i: usize = 0;
        proof {
            lemma_queries_refl(s0);
            lemma_instants_refl(r0);
        }
        while i < num_samples
            invariant
                i <= num_samples,
                out@.len() == i,
                b@.error is None,
                spec_appends_only_queries(s0, b.spec_sent()),
                spec_appends_only_instants(r0, b.spec_received()),
            decreases num_samples - i,
        {
            let ghost s_pre = b.spec_sent();
            let ghost r_pre = b.spec_received();
            self.f.run(&mut b);
            proof {
                lemma_queries_trans(s0, s_pre, b.spec_sent());
                crate::utils::lemma_prefix_trans(r0, r_pre, b.spec_received());
            }
            if !b.assert_iterated() {
                return (b.into_link(), Err(LinkError::DidNotIterate));
            }
            match b.take_error() {
                Some(e) => {
                    return (b.into_link(), Err(e));
                },
                None => {},
            }
            proof {
                lemma_instants_trans(r0, r_pre, b.spec_received());
            }
            out.push(b.value());
            i = i + 1;
        }
        (b.into_link(), Ok(out))
    }

    /// Runs the warm-up: starting at one iteration per call and doubling,
    /// until the accumulated wall time exceeds `how_long`. Returns the
    /// accumulated elapsed time — then strictly above the goal — and the
    /// accumulated iteration count.
    #[verifier::loop_isolation(false)]
    pub fn warm_up<Io: LinkIo>(&mut self, link: ProxyLink<Io>, how_long: Duration) -> (r: (
        ProxyLink<Io>,
        Result<(Duration, u64), LinkError>,
    ))
        ensures
            spec_appends_only_queries(link.spec_sent(), r.0.spec_sent()),
            crate::utils::spec_prefix_of(link.spec_received(), r.0.spec_received()),
            match r.1 {
                Ok(p) => p.0.0 > how_long.0 && spec_appends_only_instants(
                    link.spec_received(),
                    r.0.spec_received(),
                ),
                Err(e) => e != LinkError::BadHandshake,
            },
    {
        let ghost s0 = link.spec_sent();
        let ghost r0 = link.spec_received();
        let mut st = WarmupState::new();
        let mut b = Bencher::new(link, 1, true);
        let mut budget: u64 = WARMUP_CALL_BUDGET;
        proof {
            lemma_queries_refl(s0);
            lemma_instants_refl(r0);
        }
        loop
            invariant
                b@.error is None,
                spec_appends_only_queries(s0, b.spec_sent()),
                spec_appends_only_instants(r0, b.spec_received()),
            decreases budget,
        {
            if budget == 0 {
                return (b.into_link(), Err(LinkError::Timeout));
            }
            budget = budget - 1;
            let ghost s_pre = b.spec_sent();
            let ghost r_pre = b.spec_received();
            self.f.run(&mut b);
            proof {
                lemma_queries_trans(s0, s_pre, b.spec_sent());
                crate::utils::lemma_prefix_trans(r0, r_pre, b.spec_received());
            }
            if !b.assert_iterated() {
                return (b.into_link(), Err(LinkError::DidNotIterate));
            }
            match b.take_error() {
                Some(e) => {
                    return (b.into_link(), Err(e));
                },
                None => {},
            }
            proof {
                lemma_instants_trans(r0, r_pre, b.spec_received());
            }
            match st.record(b.elapsed(), how_long) {
                Ok(true) => {
                    return (b.into_link(), Ok((st.elapsed, st.total_iters)));
                },
                Ok(false) => {
                    b.set_iters(st.iters);
                },
                Err(e) => {
                    return (b.into_link(), Err(e));
                },
            }
        }
    }

    /// The full measurement procedure for one benchmark: announce the
    /// warm-up, run it, derive the plan, announce the measurement, and
    /// run the sampling loop. The returned values hold one measured
    /// cycle count per sample.
    #[verifier::rlimit(100)]
    #[verifier::spinoff_prover]
    pub fn sample<Io: LinkIo>(&mut self, link: ProxyLink<Io>, config: &BenchmarkConfig) -> (r: (
        ProxyLink<Io>,
        Result<(SamplingPlan, Vec<u64>), LinkError>,
    ))
        ensures
            crate::utils::spec_prefix_of(link.spec_sent(), r.0.spec_sent()),
            crate::utils::spec_prefix_of(link.spec_received(), r.0.spec_received()),
            match r.1 {
                Ok(p) => {
                    &&& p.1@.len() == p.0.num_samples
                    &&& p.0.num_samples == spec_clamped_samples(config.sample_size, SAMPLE_CAPACITY)
                    &&& 1 <= p.0.num_samples <= SAMPLE_CAPACITY
                    &&& p.0.iters_per_sample >= 1
                    &&& p.0.total_iters == p.0.iters_per_sample * p.0.num_samples
                    &&& spec_appends_only_instants(link.spec_received(), r.0.spec_received())
                    &&& ({
                        let pre = spec_reports(link.spec_sent());
                        let rep = spec_reports(r.0.spec_sent());
                        &&& rep.len() == pre.len() + 2
                        &&& rep.take(pre.len() as int) == pre
                        &&& rep[pre.len() as int] == (UpstreamMessageView::Warmup {
                            warm_up_goal_duration: config.warm_up_time,
                        })
                        &&& match rep[pre.len() as int + 1] {
                            UpstreamMessageView::MeasurementStart {
                                warm_up_iter_count,
                                warm_up_duration,
                                num_samples,
                                num_iters,
                            } => {
                                &&& num_samples == p.0.num_samples
                                &&& num_iters == p.0.total_iters
                                &&& warm_up_duration.0 > config.warm_up_time.0
                                &&& p.0.iters_per_sample as int == spec_iters_per_sample(
                                    spec_budget(
                                        warm_up_iter_count,
                                        warm_up_duration.0,
                                        config.measurement_time.0,
                                    ),
                                    num_samples,
                                )
                            },
                            _ => false,
                        }
                    })
                },
                Err(e) => e != LinkError::BadHandshake,
            },
    {
        let ghost s0 = link.spec_sent();
        let ghost r0 = link.spec_received();
        proof {
            crate::utils::lemma_prefix_refl(s0);
            lemma_instants_refl(r0);
        }
        let mut link = link;
        match link.send(&UpstreamMessage::Warmup { warm_up_goal_duration: config.warm_up_time }) {
            Ok(()) => {},
            Err(e) => {
                return (link, Err(e));
            },
        }
        let ghost s1 = link.spec_sent();
        proof {
            crate::utils::lemma_prefix_push(s0, s1.last());
            lemma_reports_push(
                s0,
                UpstreamMessageView::Warmup { warm_up_goal_duration: config.warm_up_time },
            );
        }
        let (mut link, wu) = self.warm_up(link, config.warm_up_time);
        let ghost s2 = link.spec_sent();
        proof {
            crate::utils::lemma_prefix_trans(s0, s1, s2);
            lemma_reports_of_queries(s1, s2);
            crate::utils::lemma_prefix_trans(r0, r0, link.spec_received());
        }
        let (wu_elapsed, wu_iters) = match wu {
            Ok(p) => p,
            Err(e) => {
                return (link, Err(e));
            },
        };
        let plan = match compute_plan(wu_iters, wu_elapsed, config, SAMPLE_CAPACITY) {
            Ok(p) => p,
            Err(e) => {
                return (link, Err(e));
            },
        };
        let start_msg = UpstreamMessage::MeasurementStart {
            warm_up_iter_count: wu_iters,
            warm_up_duration: wu_elapsed,
            num_samples: plan.num_samples,
            num_iters: plan.total_iters,
        };
        match link.send(&start_msg) {
            Ok(()) => {},
            Err(e) => {
                return (link, Err(e));
            },
        }
        let ghost s3 = link.spec_sent();
        proof {
            crate::utils::lemma_prefix_push(s2, start_msg@);
            crate::utils::lemma_prefix_trans(s0, s2, s3);
            lemma_reports_push(s2, start_msg@);
        }
        let ghost r3 = link.spec_received();
        let (link, values) = self.bench(link, plan.iters_per_sample, plan.num_samples);
        proof {
            crate::utils::lemma_prefix_trans(s0, s3, link.spec_sent());
            crate::utils::lemma_prefix_trans(r0, r3, link.spec_received());
            lemma_reports_of_queries(s3, link.spec_sent());
            let pre = spec_reports(s0);
            assert(spec_reports(link.spec_sent()) == pre.push(
                UpstreamMessageView::Warmup { warm_up_goal_duration: config.warm_up_time },
            ).push(start_msg@));
            crate::utils::lemma_push2_facts(
                pre,
                UpstreamMessageView::Warmup { warm_up_goal_duration: config.warm_up_time },
                start_msg@,
            );
        }
        match values {
            Ok(v) => {
                proof {
                    lemma_instants_trans(r0, r3, link.spec_received());
                }
                (link, Ok((plan, v)))
            },
            Err(e) => (link, Err(e)),
        }
    }
}

} // verus!

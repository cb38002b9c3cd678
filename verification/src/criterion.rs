//! The benchmark manager and the target-side session loop.
//!
//! [`run_benchmarks`] owns one whole session: it performs the handshake,
//! receives the greeting that selects the execution mode, hands a
//! [`Criterion`] to the registered benchmark groups, and closes with the
//! end-of-session message; the session law is stated on [`run_session`].
//! Exactly one group is open at a time — the borrow a [`BenchmarkGroup`]
//! holds on its [`Criterion`] enforces the protocol's one-open-group
//! invariant at compile time — and the engine blocks for the proxy's
//! `Continue` after a finished group and after each completed
//! measurement; those are the protocol's only flow-control points. The
//! contracts state all of this over the link's message logs.

use vstd::prelude::*;
use vstd::string::StringSliceAdditionalSpecFns;

use crate::bid::{AsBenchmarkId, BenchmarkId};
use crate::error::LinkError;
use crate::func::{BenchRoutine, Function};
use crate::link::{LinkIo, ProxyLink};
use crate::protocol::{
    lemma_reports_of_queries, lemma_reports_push, spec_appends_only_instants, spec_reports,
    BenchmarkConfig, DownstreamMessage, Mode, RawBenchmarkId, Throughput, UpstreamMessage,
    UpstreamMessageView,
};
use crate::utils::{
    lemma_prefix_push, lemma_prefix_refl, lemma_prefix_trans, spec_prefix_of, spec_truncate,
    str_to_bytes, truncate_to_boundary, vec_skip,
};

verus! {

/// Longest group, function or parameter name the engine keeps, in bytes;
/// longer names are truncated at a scalar boundary.
pub const NAME_CAPACITY: usize = 128;

/// The benchmark manager: owns the link for the session and walks the
/// registered benchmarks in the requested mode. A fatal condition makes
/// it inert; the error surfaces when the session ends.
pub struct Criterion<Io: LinkIo> {
    link: Option<ProxyLink<Io>>,
    mode: Mode,
    group_name: Vec<u8>,
    config: BenchmarkConfig,
    error: Option<LinkError>,
}

impl<Io: LinkIo> Criterion<Io> {
    /// The execution mode the greeting selected.
    pub closed spec fn spec_mode(&self) -> Mode {
        self.mode
    }

    /// The per-run measurement parameters.
    pub closed spec fn spec_config(&self) -> BenchmarkConfig {
        self.config
    }

    /// The first fatal condition met so far, if any.
    pub closed spec fn spec_error(&self) -> Option<LinkError> {
        self.error
    }

    /// The currently stored (truncated) group name.
    pub closed spec fn spec_group_name(&self) -> Seq<u8> {
        self.group_name@
    }

    /// Whether the manager still holds its link.
    pub closed spec fn spec_link_present(&self) -> bool {
        self.link is Some
    }

    /// The held link's emission log.
    pub closed spec fn spec_sent(&self) -> Seq<UpstreamMessageView> {
        match self.link {
            Some(l) => l.spec_sent(),
            None => Seq::empty(),
        }
    }

    /// The held link's reception log.
    pub closed spec fn spec_received(&self) -> Seq<DownstreamMessage> {
        match self.link {
            Some(l) => l.spec_received(),
            None => Seq::empty(),
        }
    }
}

/// What every step of a session preserves: the mode and configuration
/// are fixed, the link is not lost, the message logs only grow, and the
/// first fatal condition sticks.
pub open spec fn spec_session_extends<Io: LinkIo>(pre: Criterion<Io>, post: Criterion<Io>) -> bool {
    &&& post.spec_mode() == pre.spec_mode()
    &&& post.spec_config() == pre.spec_config()
    &&& (pre.spec_link_present() ==> post.spec_link_present())
    &&& spec_prefix_of(pre.spec_sent(), post.spec_sent())
    &&& spec_prefix_of(pre.spec_received(), post.spec_received())
    &&& (pre.spec_error() is Some ==> post.spec_error() == pre.spec_error())
}

/// A set of benchmark groups to register against a [`Criterion`]. An
/// implementation drives the manager through its public face only, so
/// one registration can only extend the session.
pub trait BenchSuite {
    /// Registers every group, by calling [`Criterion::benchmark_group`]
    /// and friends.
    fn register<Io: LinkIo>(&mut self, c: &mut Criterion<Io>)
        ensures
            spec_session_extends(*old(c), *final(c)),
    ;
}

/// Runs one session on an established link: receive the greeting that
/// selects the mode, run every group the suite registers, and close with
/// the end-of-session message. On success the first message received was
/// the greeting and the last message sent is the end marker of the
/// session.
pub fn run_session<Io: LinkIo, S: BenchSuite>(suite: &mut S, link: ProxyLink<Io>) -> (r: (
    ProxyLink<Io>,
    Result<(), LinkError>,
))
    ensures
        spec_prefix_of(link.spec_sent(), r.0.spec_sent()),
        spec_prefix_of(link.spec_received(), r.0.spec_received()),
        r.1 is Ok ==> {
            &&& r.0.spec_received().len() > link.spec_received().len()
            &&& r.0.spec_received()[link.spec_received().len() as int] matches
                DownstreamMessage::Greeting { .. }
            &&& r.0.spec_sent().len() > 0
            &&& r.0.spec_sent().last() == UpstreamMessageView::End
        },
{
    let ghost s0 = link.spec_sent();
    let ghost r0 = link.spec_received();
    proof {
        lemma_prefix_refl(s0);
        lemma_prefix_refl(r0);
    }
    let mut link = link;
    let mode = match link.recv() {
        Ok(DownstreamMessage::Greeting { mode }) => mode,
        Ok(_) => {
            proof {
                lemma_prefix_push(r0, link.spec_received().last());
            }
            return (link, Err(LinkError::UnexpectedMessage));
        },
        Err(e) => {
            return (link, Err(e));
        },
    };
    proof {
        lemma_prefix_push(r0, link.spec_received().last());
    }
    let mut cri = Criterion {
        link: Some(link),
        mode,
        group_name: Vec::new(),
        config: BenchmarkConfig::default(),
        error: None,
    };
    let ghost mid = cri;
    suite.register(&mut cri);
    let mut link = match cri.link.take() {
        Some(l) => l,
        None => {
            // The registration contract keeps the link; this arm cannot
            // be reached.
            proof {
                assert(false);
            }
            return vstd::pervasive::unreached();
        },
    };
    proof {
        lemma_prefix_trans(s0, mid.spec_sent(), link.spec_sent());
        lemma_prefix_trans(r0, mid.spec_received(), link.spec_received());
    }
    match cri.error {
        Some(e) => {
            return (link, Err(e));
        },
        None => {},
    }
    let ghost s_reg = link.spec_sent();
    let ghost r_reg = link.spec_received();
    match link.send(&UpstreamMessage::End) {
        Ok(()) => {},
        Err(e) => {
            proof {
                lemma_prefix_refl(s_reg);
                lemma_prefix_refl(r_reg);
                lemma_prefix_trans(s0, s_reg, link.spec_sent());
                lemma_prefix_trans(r0, r_reg, link.spec_received());
            }
            return (link, Err(e));
        },
    }
    proof {
        lemma_prefix_push(s_reg, UpstreamMessageView::End);
        lemma_prefix_trans(s0, s_reg, link.spec_sent());
        lemma_prefix_refl(r_reg);
        lemma_prefix_trans(r0, r_reg, link.spec_received());
        crate::utils::lemma_prefix_index(mid.spec_received(), r_reg, r0.len() as int);
    }
    (link, Ok(()))
}

/// Runs one benchmark session over `io`: responder handshake, greeting,
/// every group that `suite` registers, then the end-of-session message,
/// whose guarantees stand on [`run_session`]. Returns the transport when
/// the session closed cleanly.
pub fn run_benchmarks<Io: LinkIo, S: BenchSuite>(suite: &mut S, io: Io, capacity: usize) -> (r:
    Result<Io, LinkError>)
{
    let link = match ProxyLink::new(io, capacity) {
        Ok(l) => l,
        Err(e) => {
            return Err(e);
        },
    };
    let (link, outcome) = run_session(suite, link);
    match outcome {
        Ok(()) => Ok(link.into_io()),
        Err(e) => Err(e),
    }
}

impl<Io: LinkIo> Criterion<Io> {
    fn record_error(&mut self, e: LinkError)
        ensures
            final(self).spec_error() == (if old(self).spec_error() is None {
                Some(e)
            } else {
                old(self).spec_error()
            }),
            final(self).spec_mode() == old(self).spec_mode(),
            final(self).spec_config() == old(self).spec_config(),
            final(self).spec_group_name() == old(self).spec_group_name(),
            final(self).spec_link_present() == old(self).spec_link_present(),
            final(self).spec_sent() == old(self).spec_sent(),
            final(self).spec_received() == old(self).spec_received(),
    {
        if self.error.is_none() {
            self.error = Some(e);
        }
    }

    /// Stores the boundary-truncated group name and announces the group
    /// to the proxy; inert once a fatal condition was recorded.
    fn begin_group(&mut self, group_name: &str)
        ensures
            spec_session_extends(*old(self), *final(self)),
            final(self).spec_group_name() == spec_truncate(
                group_name.spec_bytes(),
                NAME_CAPACITY as int,
            ),
            final(self).spec_received() == old(self).spec_received(),
            old(self).spec_error() is Some ==> final(self).spec_sent() == old(self).spec_sent(),
            old(self).spec_error() is None && final(self).spec_error() is None
                ==> final(self).spec_sent() == old(self).spec_sent().push(
                UpstreamMessageView::BeginningBenchmarkGroup {
                    group: spec_truncate(group_name.spec_bytes(), NAME_CAPACITY as int),
                },
            ),
    {
        proof {
            lemma_prefix_refl(self.spec_sent());
            lemma_prefix_refl(self.spec_received());
        }
        let bytes = str_to_bytes(group_name);
        self.group_name = truncate_to_boundary(bytes, NAME_CAPACITY);
        if self.error.is_some() {
            return ;
        }
        let ghost s0 = self.spec_sent();
        match self.link.take() {
            Some(mut link) => {
                let group = vec_skip(&self.group_name, 0);
                let msg = UpstreamMessage::BeginningBenchmarkGroup { group };
                let mut failed = false;
                match link.send(&msg) {
                    Ok(()) => {},
                    Err(e) => {
                        failed = true;
                        self.error = Some(e);
                    },
                }
                self.link = Some(link);
                proof {
                    assert(msg@ == (UpstreamMessageView::BeginningBenchmarkGroup {
                        group: spec_truncate(group_name.spec_bytes(), NAME_CAPACITY as int),
                    })) by {
                        assert(group@ =~= spec_truncate(
                            group_name.spec_bytes(),
                            NAME_CAPACITY as int,
                        ));
                    }
                    if failed {
                        assert(self.spec_sent() == s0);
                    } else {
                        assert(self.spec_sent() == s0.push(msg@));
                        lemma_prefix_push(s0, msg@);
                    }
                }
            },
            None => {
                self.record_error(LinkError::StreamClosed);
            },
        }
    }

    /// Opens a benchmark group under `group_name` and announces it to the
    /// proxy (see [`Criterion::begin_group`] for the statement of what
    /// that does). The group must be finished before another can open.
    pub fn benchmark_group(&mut self, group_name: &str) -> BenchmarkGroup<'_, Io> {
        self.begin_group(group_name);
        BenchmarkGroup { cri: self, throughput: None }
    }

    /// Benchmarks one parameterless routine as a group of its own.
    pub fn bench_function<F: BenchRoutine>(&mut self, id: &str, f: &mut F) -> &mut Self {
        let mut group = self.benchmark_group(id);
        group.bench_function(BenchmarkId::no_function(), f);
        group.finish();
        self
    }

}

/// One complete measurement on the wire, relative to the logs before
/// it: the reports gain exactly the benchmark's id, the warm-up goal
/// from the configuration, and a measurement plan and completed
/// measurement that agree — one value per planned sample, the planned
/// total the exact per-sample product, the configuration passed through
/// unmodified, the warm-up run past its goal — and the engine then
/// blocked until the proxy's `Continue`, the last message received.
#[verifier::opaque]
pub open spec fn spec_one_measurement(
    pre_sent: Seq<UpstreamMessageView>,
    post_sent: Seq<UpstreamMessageView>,
    pre_recv: Seq<DownstreamMessage>,
    post_recv: Seq<DownstreamMessage>,
    id: crate::protocol::RawBenchmarkIdView,
    config: BenchmarkConfig,
) -> bool {
    let pre = spec_reports(pre_sent);
    let rep = spec_reports(post_sent);
    &&& rep.len() == pre.len() + 4
    &&& rep.take(pre.len() as int) == pre
    &&& rep[pre.len() as int] == (UpstreamMessageView::BeginningBenchmark { id })
    &&& rep[pre.len() as int + 1] == (UpstreamMessageView::Warmup {
        warm_up_goal_duration: config.warm_up_time,
    })
    &&& match rep[pre.len() as int + 2] {
        UpstreamMessageView::MeasurementStart { warm_up_duration, num_samples, num_iters, .. } => {
            &&& warm_up_duration.0 > config.warm_up_time.0
            &&& match rep[pre.len() as int + 3] {
                UpstreamMessageView::MeasurementComplete {
                    num_iters_per_sample,
                    values,
                    benchmark_config,
                } => {
                    &&& benchmark_config == config
                    &&& values.len() == num_samples
                    &&& num_iters_per_sample as int * num_samples as int == num_iters as int
                },
                _ => false,
            }
        },
        _ => false,
    }
    &&& post_recv.len() > pre_recv.len()
    &&& post_recv.last() == DownstreamMessage::Continue
}

/// What one error-free benchmark adds to the session. In benchmark mode
/// the reports gain exactly the benchmark's id — the stored group name,
/// the boundary-truncated function and parameter names, and the group's
/// throughput setting — then the warm-up goal from the configuration,
/// then a measurement plan and a completed measurement that agree: the
/// values hold one entry per planned sample, the planned total is the
/// per-sample count times the sample count, the reported configuration
/// is the engine's own, and the warm-up ran past its goal; the engine
/// then blocked until the proxy's `Continue`, the last message received.
/// In test mode nothing is reported and nothing is waited for.
#[verifier::opaque]
pub open spec fn spec_measurement_emitted<Io: LinkIo>(
    pre_cri: Criterion<Io>,
    post_cri: Criterion<Io>,
    id: BenchmarkId,
    throughput: Option<Throughput>,
) -> bool {
    let pre = spec_reports(pre_cri.spec_sent());
    let rep = spec_reports(post_cri.spec_sent());
    match pre_cri.spec_mode() {
        Mode::Test => rep == pre && spec_appends_only_instants(
            pre_cri.spec_received(),
            post_cri.spec_received(),
        ),
        Mode::Benchmark => spec_one_measurement(
            pre_cri.spec_sent(),
            post_cri.spec_sent(),
            pre_cri.spec_received(),
            post_cri.spec_received(),
            crate::protocol::RawBenchmarkIdView {
                group_id: pre_cri.spec_group_name(),
                function_id: match id.function_name {
                    Some(fnm) => Some(spec_truncate(fnm@, NAME_CAPACITY as int)),
                    None => None,
                },
                value_str: match id.parameter {
                    Some(p) => Some(spec_truncate(p@, NAME_CAPACITY as int)),
                    None => None,
                },
                throughput,
            },
            pre_cri.spec_config(),
        ),
    }
}

impl<Io: LinkIo> Criterion<Io> {
    /// Runs one benchmark. With no fatal condition on the way, what the
    /// session gains is exactly [`spec_measurement_emitted`]: the four
    /// reports of one measurement and the blocking `Continue` in
    /// benchmark mode, nothing in test mode.
    #[verifier::rlimit(100)]
    #[verifier::spinoff_prover]
    fn bench_function_inner<F: BenchRoutine>(
        &mut self,
        id: &BenchmarkId,
        throughput: Option<Throughput>,
        f: &mut F,
    )
        ensures
            spec_session_extends(*old(self), *final(self)),
            final(self).spec_group_name() == old(self).spec_group_name(),
            old(self).spec_error() is Some ==> final(self).spec_sent() == old(self).spec_sent()
                && final(self).spec_received() == old(self).spec_received(),
            old(self).spec_error() is None && final(self).spec_error() is None
                && old(self).spec_link_present() ==> spec_measurement_emitted(
                *old(self),
                *final(self),
                *id,
                throughput,
            ),
    {
        proof {
            lemma_prefix_refl(self.spec_sent());
            lemma_prefix_refl(self.spec_received());
        }
        if self.error.is_some() {
            return ;
        }
        let raw = RawBenchmarkId {
            group_id: vec_skip(&self.group_name, 0),
            function_id: match &id.function_name {
                Some(v) => Some(truncate_to_boundary(vec_skip(v, 0), NAME_CAPACITY)),
                None => None,
            },
            value_str: match &id.parameter {
                Some(v) => Some(truncate_to_boundary(vec_skip(v, 0), NAME_CAPACITY)),
                None => None,
            },
            throughput,
        };
        proof {
            assert(self.group_name@.skip(0) =~= self.group_name@);
            match &id.function_name {
                Some(v) => {
                    assert(v@.skip(0) =~= v@);
                },
                None => {},
            }
            match &id.parameter {
                Some(v) => {
                    assert(v@.skip(0) =~= v@);
                },
                None => {},
            }
        }
        let link = match self.link.take() {
            Some(l) => l,
            None => {
                self.record_error(LinkError::StreamClosed);
                return ;
            },
        };
        let mut link = link;
        let ghost s0 = link.spec_sent();
        let ghost r0 = link.spec_received();
        match self.mode {
            Mode::Benchmark => {
                let config = self.config;
                let (link2, outcome) = run_measurement(f, link, raw, config);
                self.link = Some(link2);
                match outcome {
                    Ok(()) => {
                        proof {
                            reveal(spec_measurement_emitted);
                        }
                    },
                    Err(e) => {
                        self.record_error(e);
                    },
                }
            },
            Mode::Test => {
                // One call with a single iteration, to check the routine
                // runs; no measurement is reported and the engine does
                // not wait for `Continue` here.
                let mut func = Function::new(f);
                let (link2, outcome) = func.bench(link, 1, 1);
                proof {
                    reveal(spec_measurement_emitted);
                    lemma_reports_of_queries(s0, link2.spec_sent());
                }
                match outcome {
                    Ok(_) => {},
                    Err(e) => {
                        self.record_error(e);
                    },
                }
                self.link = Some(link2);
            },
        }
    }

    /// Closes the open group: announces the end and, with no fatal
    /// condition on the way, blocks until the proxy's `Continue`, the
    /// one message received.
    fn end_group(&mut self)
        ensures
            spec_session_extends(*old(self), *final(self)),
            final(self).spec_group_name() == old(self).spec_group_name(),
            old(self).spec_error() is Some ==> final(self).spec_sent() == old(self).spec_sent()
                && final(self).spec_received() == old(self).spec_received(),
            old(self).spec_error() is None && final(self).spec_error() is None
                && old(self).spec_link_present() ==> final(self).spec_sent()
                == old(self).spec_sent().push(UpstreamMessageView::FinishedBenchmarkGroup)
                && final(self).spec_received() == old(self).spec_received().push(
                DownstreamMessage::Continue,
            ),
    {
        proof {
            lemma_prefix_refl(self.spec_sent());
            lemma_prefix_refl(self.spec_received());
        }
        if self.error.is_some() {
            return ;
        }
        let link = match self.link.take() {
            Some(l) => l,
            None => {
                self.record_error(LinkError::StreamClosed);
                return ;
            },
        };
        let mut link = link;
        let ghost s0 = link.spec_sent();
        let ghost r0 = link.spec_received();
        match link.send(&UpstreamMessage::FinishedBenchmarkGroup) {
            Ok(()) => {
                proof {
                    lemma_prefix_push(s0, UpstreamMessageView::FinishedBenchmarkGroup);
                }
                match link.recv() {
                    Ok(DownstreamMessage::Continue) => {
                        proof {
                            lemma_prefix_push(r0, DownstreamMessage::Continue);
                        }
                    },
                    Ok(_) => {
                        proof {
                            lemma_prefix_push(r0, link.spec_received().last());
                        }
                        self.record_error(LinkError::UnexpectedMessage);
                    },
                    Err(e) => {
                        self.record_error(e);
                    },
                }
            },
            Err(e) => {
                self.record_error(e);
            },
        }
        self.link = Some(link);
    }
}

/// Assembles the wire statement of one measurement from its pieces: the
/// announced benchmark, the warm-up and plan reports the sampling added,
/// the completed measurement, and the closing `Continue`.
proof fn lemma_assemble_measurement(
    s0: Seq<UpstreamMessageView>,
    s1: Seq<UpstreamMessageView>,
    s2: Seq<UpstreamMessageView>,
    s3: Seq<UpstreamMessageView>,
    r0: Seq<DownstreamMessage>,
    rf: Seq<DownstreamMessage>,
    id: crate::protocol::RawBenchmarkIdView,
    config: BenchmarkConfig,
    num_samples: usize,
    iters_per_sample: u64,
    total_iters: u64,
    values: Seq<u64>,
)
    requires
        spec_reports(s1) == spec_reports(s0).push(UpstreamMessageView::BeginningBenchmark { id }),
        spec_reports(s2).len() == spec_reports(s1).len() + 2,
        spec_reports(s2).take(spec_reports(s1).len() as int) == spec_reports(s1),
        spec_reports(s2)[spec_reports(s1).len() as int] == (UpstreamMessageView::Warmup {
            warm_up_goal_duration: config.warm_up_time,
        }),
        match spec_reports(s2)[spec_reports(s1).len() as int + 1] {
            UpstreamMessageView::MeasurementStart {
                warm_up_duration,
                num_samples: ns,
                num_iters,
                ..
            } => {
                &&& ns == num_samples
                &&& num_iters == total_iters
                &&& warm_up_duration.0 > config.warm_up_time.0
            },
            _ => false,
        },
        spec_reports(s3) == spec_reports(s2).push(
            UpstreamMessageView::MeasurementComplete {
                num_iters_per_sample: iters_per_sample,
                values,
                benchmark_config: config,
            },
        ),
        values.len() == num_samples,
        total_iters == iters_per_sample * num_samples,
        rf.len() > r0.len(),
        rf.last() == DownstreamMessage::Continue,
    ensures
        spec_one_measurement(s0, s3, r0, rf, id, config),
{
    reveal(spec_one_measurement);
    let pre = spec_reports(s0);
    let rep1 = spec_reports(s1);
    let rep2 = spec_reports(s2);
    crate::utils::lemma_recompose_two(rep1, rep2);
    crate::utils::lemma_push4_facts(
        pre,
        UpstreamMessageView::BeginningBenchmark { id },
        rep2[rep1.len() as int],
        rep2[rep1.len() as int + 1],
        UpstreamMessageView::MeasurementComplete {
            num_iters_per_sample: iters_per_sample,
            values,
            benchmark_config: config,
        },
    );
}

/// Runs one full measurement over the link: announce the benchmark,
/// sample it, report the completed measurement, and block for the
/// proxy's `Continue`. On success the reports gained are exactly the
/// benchmark's id, the warm-up goal, and an agreeing plan and
/// measurement, and the `Continue` is the last message received.
#[verifier::rlimit(100)]
#[verifier::spinoff_prover]
fn run_measurement<Io: LinkIo, F: BenchRoutine>(
    f: &mut F,
    link: ProxyLink<Io>,
    raw: RawBenchmarkId,
    config: BenchmarkConfig,
) -> (r: (ProxyLink<Io>, Result<(), LinkError>))
    ensures
        spec_prefix_of(link.spec_sent(), r.0.spec_sent()),
        spec_prefix_of(link.spec_received(), r.0.spec_received()),
        match r.1 {
            Ok(_) => spec_one_measurement(
                link.spec_sent(),
                r.0.spec_sent(),
                link.spec_received(),
                r.0.spec_received(),
                raw@,
                config,
            ),
            Err(e) => e != LinkError::BadHandshake,
        },
{
    let ghost s0 = link.spec_sent();
    let ghost r0 = link.spec_received();
    proof {
        lemma_prefix_refl(s0);
        lemma_prefix_refl(r0);
    }
    let mut link = link;
    let mut func = Function::new(f);
    let begin_msg = UpstreamMessage::BeginningBenchmark { id: raw };
    match link.send(&begin_msg) {
        Ok(()) => {},
        Err(e) => {
            return (link, Err(e));
        },
    }
    let ghost s1 = link.spec_sent();
    proof {
        lemma_prefix_push(s0, begin_msg@);
        lemma_reports_push(s0, begin_msg@);
    }
    let (link2, outcome) = func.sample(link, &config);
    let mut link = link2;
    let ghost s2 = link.spec_sent();
    let ghost r2 = link.spec_received();
    proof {
        lemma_prefix_trans(s0, s1, s2);
        lemma_prefix_trans(r0, r0, r2);
    }
    let (plan, values) = match outcome {
        Ok(p) => p,
        Err(e) => {
            return (link, Err(e));
        },
    };
    let (link, outcome) = finish_measurement(
        link,
        plan,
        values,
        config,
        Ghost(s0),
        Ghost(s1),
        Ghost(r0),
        Ghost(raw@),
    );
    proof {
        lemma_prefix_trans(s0, s2, link.spec_sent());
        lemma_prefix_trans(r0, r2, link.spec_received());
    }
    (link, outcome)
}

/// Reports one completed measurement and blocks for the `Continue` that
/// releases the target; the ghost anchors carry where in the session
/// this measurement began.
#[verifier::spinoff_prover]
fn finish_measurement<Io: LinkIo>(
    link: ProxyLink<Io>,
    plan: crate::plan::SamplingPlan,
    values: Vec<u64>,
    config: BenchmarkConfig,
    Ghost(s0): Ghost<Seq<UpstreamMessageView>>,
    Ghost(s1): Ghost<Seq<UpstreamMessageView>>,
    Ghost(r0): Ghost<Seq<DownstreamMessage>>,
    Ghost(idv): Ghost<crate::protocol::RawBenchmarkIdView>,
) -> (r: (ProxyLink<Io>, Result<(), LinkError>))
    requires
        spec_reports(s1) == spec_reports(s0).push(
            UpstreamMessageView::BeginningBenchmark { id: idv },
        ),
        spec_reports(link.spec_sent()).len() == spec_reports(s1).len() + 2,
        spec_reports(link.spec_sent()).take(spec_reports(s1).len() as int) == spec_reports(s1),
        spec_reports(link.spec_sent())[spec_reports(s1).len() as int]
            == (UpstreamMessageView::Warmup { warm_up_goal_duration: config.warm_up_time }),
        match spec_reports(link.spec_sent())[spec_reports(s1).len() as int + 1] {
            UpstreamMessageView::MeasurementStart {
                warm_up_duration,
                num_samples,
                num_iters,
                ..
            } => {
                &&& num_samples == plan.num_samples
                &&& num_iters == plan.total_iters
                &&& warm_up_duration.0 > config.warm_up_time.0
            },
            _ => false,
        },
        values@.len() == plan.num_samples,
        plan.total_iters == plan.iters_per_sample * plan.num_samples,
        crate::utils::spec_prefix_of(r0, link.spec_received()),
    ensures
        crate::utils::spec_prefix_of(link.spec_sent(), r.0.spec_sent()),
        crate::utils::spec_prefix_of(link.spec_received(), r.0.spec_received()),
        match r.1 {
            Ok(_) => spec_one_measurement(
                s0,
                r.0.spec_sent(),
                r0,
                r.0.spec_received(),
                idv,
                config,
            ),
            Err(e) => e != LinkError::BadHandshake,
        },
{
    let mut link = link;
    let ghost s2 = link.spec_sent();
    let ghost r2 = link.spec_received();
    proof {
        lemma_prefix_refl(s2);
        lemma_prefix_refl(r2);
    }
    let ghost vals = values@;
    let complete_msg = UpstreamMessage::MeasurementComplete {
        num_iters_per_sample: plan.iters_per_sample,
        values,
        benchmark_config: config,
    };
    match link.send(&complete_msg) {
        Ok(()) => {},
        Err(e) => {
            return (link, Err(e));
        },
    }
    proof {
        lemma_prefix_push(s2, complete_msg@);
        lemma_reports_push(s2, complete_msg@);
    }
    let ghost s3 = link.spec_sent();
    match link.recv() {
        Ok(DownstreamMessage::Continue) => {
            proof {
                lemma_prefix_push(r2, DownstreamMessage::Continue);
                lemma_assemble_measurement(
                    s0,
                    s1,
                    s2,
                    s3,
                    r0,
                    link.spec_received(),
                    idv,
                    config,
                    plan.num_samples,
                    plan.iters_per_sample,
                    plan.total_iters,
                    vals,
                );
            }
            (link, Ok(()))
        },
        Ok(_) => {
            proof {
                lemma_prefix_push(r2, link.spec_received().last());
            }
            (link, Err(LinkError::UnexpectedMessage))
        },
        Err(e) => {
            (link, Err(e))
        },
    }
}

/// One open benchmark group. Holding it borrows the [`Criterion`]
/// exclusively, so a second group cannot open before this one finishes.
pub struct BenchmarkGroup<'a, Io: LinkIo> {
    cri: &'a mut Criterion<Io>,
    throughput: Option<Throughput>,
}

impl<'a, Io: LinkIo> BenchmarkGroup<'a, Io> {
    /// Sets the input size reported for this group's benchmarks.
    pub fn throughput(&mut self, throughput: Throughput) -> &mut Self {
        self.throughput = Some(throughput);
        self
    }

    /// Benchmarks one routine inside this group; see
    /// [`Criterion::bench_function_inner`] for the statement of what one
    /// benchmark emits and awaits.
    pub fn bench_function<I: AsBenchmarkId, F: BenchRoutine>(&mut self, id: I, f: &mut F) -> &mut Self {
        let id = id.as_benchmark_id();
        let throughput = self.throughput;
        self.cri.bench_function_inner(&id, throughput, f);
        self
    }

    /// Closes the group: announces the end and blocks for `Continue`;
    /// see [`Criterion::end_group`] for the statement.
    pub fn finish(self) {
        self.cri.end_group();
    }
}

} // verus!

//! The messages exchanged between the target and the proxy.
//!
//! Upstream messages flow from the benchmark engine on the target to the
//! proxy; downstream messages flow back. The two directions use the same
//! canonical encoding, defined in [`crate::codec`].

use vstd::prelude::*;

use crate::time::{Duration, Instant};

verus! {

/// The execution mode requested by the greeting.
#[derive(Debug, Copy, Clone, PartialEq, Eq, Structural)]
pub enum Mode {
    /// Run benchmarks normally, with warm-up and sampling.
    Benchmark,
    /// Run each benchmark once to verify that it works, without measuring.
    Test,
}

/// How the throughput of benchmarked code is reported. The value never
/// affects iteration-count arithmetic; it only scales reported results.
#[derive(Debug, Copy, Clone, PartialEq, Eq, Structural)]
pub enum Throughput {
    /// Bytes processed by one iteration.
    Bytes(u64),
    /// Elements processed by one iteration.
    Elements(u64),
}

/// Identifies one (group, function, parameter) triple. The names are held
/// as UTF-8 bytes; they are built from caller-supplied display values and
/// live for one message exchange only.
#[derive(Debug, Clone, PartialEq, Eq)]
pub struct RawBenchmarkId {
    pub group_id: Vec<u8>,
    pub function_id: Option<Vec<u8>>,
    pub value_str: Option<Vec<u8>>,
    pub throughput: Option<Throughput>,
}

/// The mathematical value of a [`RawBenchmarkId`].
pub struct RawBenchmarkIdView {
    pub group_id: Seq<u8>,
    pub function_id: Option<Seq<u8>>,
    pub value_str: Option<Seq<u8>>,
    pub throughput: Option<Throughput>,
}

impl View for RawBenchmarkId {
    type V = RawBenchmarkIdView;

    open spec fn view(&self) -> RawBenchmarkIdView {
        RawBenchmarkIdView {
            group_id: self.group_id@,
            function_id: match self.function_id {
                Some(v) => Some(v@),
                None => None,
            },
            value_str: match self.value_str {
                Some(v) => Some(v@),
                None => None,
            },
            throughput: self.throughput,
        }
    }
}

impl RawBenchmarkId {
    /// The display form: the non-empty parts among group, function and
    /// parameter, joined by `/`.
    pub fn display_bytes(&self) -> (r: Vec<u8>)
        ensures
            r@ == spec_display_bytes(self@),
    {
        let mut out: Vec<u8> = Vec::new();
        append_part(&mut out, &self.group_id);
        if let Some(f) = &self.function_id {
            append_part(&mut out, f);
        }
        if let Some(v) = &self.value_str {
            append_part(&mut out, v);
        }
        out
    }
}

/// One display part: empty parts vanish; a later part is preceded by `/`
/// when something already stands before it.
pub open spec fn spec_join_part(acc: Seq<u8>, part: Seq<u8>) -> Seq<u8> {
    if part.len() == 0 {
        acc
    } else if acc.len() == 0 {
        part
    } else {
        acc + seq![0x2fu8] + part
    }
}

/// The display form of a benchmark id over its parts.
pub open spec fn spec_display_bytes(id: RawBenchmarkIdView) -> Seq<u8> {
    let s0 = spec_join_part(Seq::empty(), id.group_id);
    let s1 = match id.function_id {
        Some(f) => spec_join_part(s0, f),
        None => s0,
    };
    match id.value_str {
        Some(v) => spec_join_part(s1, v),
        None => s1,
    }
}

/// Appends one display part to the accumulator, with a `/` separator where
/// one is due.
fn append_part(out: &mut Vec<u8>, part: &Vec<u8>)
    ensures
        final(out)@ == spec_join_part(old(out)@, part@),
{
    let ghost acc = out@;
    if part.len() == 0 {
        return ;
    }
    if out.len() > 0 {
        out.push(0x2f);
    }
    let mut i: usize = 0;
    while i < part.len()
        invariant
            i <= part@.len(),
            part@.len() > 0,
            out@ == (if acc.len() == 0 {
                part@.take(i as int)
            } else {
                acc + seq![0x2fu8] + part@.take(i as int)
            }),
        decreases part@.len() - i,
    {
        out.push(part[i]);
        proof {
            assert(part@.take(i as int).push(part@[i as int]) =~= part@.take(i + 1));
            if acc.len() != 0 {
                assert((acc + seq![0x2fu8] + part@.take(i as int)).push(part@[i as int]) =~= acc
                    + seq![0x2fu8] + part@.take(i + 1));
            }
        }
        i = i + 1;
    }
    proof {
        assert(part@.take(part@.len() as int) =~= part@);
    }
}

/// The per-run measurement parameters. Immutable for the whole run.
#[derive(Debug, Copy, Clone, PartialEq, Eq, Structural)]
pub struct BenchmarkConfig {
    pub measurement_time: Duration,
    pub nresamples: usize,
    pub sample_size: usize,
    pub warm_up_time: Duration,
}

impl Default for BenchmarkConfig {
    /// The compile-time defaults: 3 s warm-up, 5 s measurement, 50 samples.
    fn default() -> (r: Self)
        ensures
            r.measurement_time.0 == 5_000_000_000u64,
            r.nresamples == 100_000usize,
            r.sample_size == 50usize,
            r.warm_up_time.0 == 3_000_000_000u64,
    {
        BenchmarkConfig {
            measurement_time: Duration(5_000_000_000),
            nresamples: 100_000,
            sample_size: 50,
            warm_up_time: Duration(3_000_000_000),
        }
    }
}

/// A message sent from the proxy to the target.
#[derive(Debug, Copy, Clone, PartialEq, Eq, Structural)]
pub enum DownstreamMessage {
    /// Opens the session and selects the execution mode.
    Greeting { mode: Mode },
    /// Releases the target past a point where it blocked after reporting a
    /// complete unit of progress.
    Continue,
    /// Answers [`UpstreamMessage::GetInstant`].
    Instant(Instant),
}

/// A message sent from the target to the proxy.
#[derive(Debug, Clone, PartialEq, Eq)]
pub enum UpstreamMessage {
    BeginningBenchmarkGroup { group: Vec<u8> },
    FinishedBenchmarkGroup,
    BeginningBenchmark { id: RawBenchmarkId },
    SkippingBenchmark { id: RawBenchmarkId },
    Warmup { warm_up_goal_duration: Duration },
    MeasurementStart { warm_up_iter_count: u64, warm_up_duration: Duration, num_samples: usize, num_iters: u64 },
    MeasurementComplete { num_iters_per_sample: u64, values: Vec<u64>, benchmark_config: BenchmarkConfig },
    /// No more benchmarks remain; the session is over.
    End,
    /// Asks the proxy for the current time; the engine blocks until the
    /// matching [`DownstreamMessage::Instant`] arrives.
    GetInstant,
}

/// The mathematical value of an [`UpstreamMessage`].
pub enum UpstreamMessageView {
    BeginningBenchmarkGroup { group: Seq<u8> },
    FinishedBenchmarkGroup,
    BeginningBenchmark { id: RawBenchmarkIdView },
    SkippingBenchmark { id: RawBenchmarkIdView },
    Warmup { warm_up_goal_duration: Duration },
    MeasurementStart { warm_up_iter_count: u64, warm_up_duration: Duration, num_samples: usize, num_iters: u64 },
    MeasurementComplete { num_iters_per_sample: u64, values: Seq<u64>, benchmark_config: BenchmarkConfig },
    End,
    GetInstant,
}

impl View for UpstreamMessage {
    type V = UpstreamMessageView;

    open spec fn view(&self) -> UpstreamMessageView {
        match self {
            UpstreamMessage::BeginningBenchmarkGroup { group } => {
                UpstreamMessageView::BeginningBenchmarkGroup { group: group@ }
            },
            UpstreamMessage::FinishedBenchmarkGroup => UpstreamMessageView::FinishedBenchmarkGroup,
            UpstreamMessage::BeginningBenchmark { id } => {
                UpstreamMessageView::BeginningBenchmark { id: id@ }
            },
            UpstreamMessage::SkippingBenchmark { id } => {
                UpstreamMessageView::SkippingBenchmark { id: id@ }
            },
            UpstreamMessage::Warmup { warm_up_goal_duration } => {
                UpstreamMessageView::Warmup { warm_up_goal_duration: *warm_up_goal_duration }
            },
            UpstreamMessage::MeasurementStart {
                warm_up_iter_count,
                warm_up_duration,
                num_samples,
                num_iters,
            } => {
                UpstreamMessageView::MeasurementStart {
                    warm_up_iter_count: *warm_up_iter_count,
                    warm_up_duration: *warm_up_duration,
                    num_samples: *num_samples,
                    num_iters: *num_iters,
                }
            },
            UpstreamMessage::MeasurementComplete {
                num_iters_per_sample,
                values,
                benchmark_config,
            } => {
                UpstreamMessageView::MeasurementComplete {
                    num_iters_per_sample: *num_iters_per_sample,
                    values: values@,
                    benchmark_config: *benchmark_config,
                }
            },
            UpstreamMessage::End => UpstreamMessageView::End,
            UpstreamMessage::GetInstant => UpstreamMessageView::GetInstant,
        }
    }
}

/// The lifecycle and measurement reports in an emission log: everything
/// but the timing queries interleaved with them.
pub open spec fn spec_reports(s: Seq<UpstreamMessageView>) -> Seq<UpstreamMessageView>
    decreases s.len(),
{
    if s.len() == 0 {
        Seq::empty()
    } else {
        let pre = spec_reports(s.drop_last());
        if s.last() is GetInstant {
            pre
        } else {
            pre.push(s.last())
        }
    }
}

/// Whether `post` is `pre` with nothing but timing queries appended.
pub open spec fn spec_appends_only_queries(
    pre: Seq<UpstreamMessageView>,
    post: Seq<UpstreamMessageView>,
) -> bool {
    &&& crate::utils::spec_prefix_of(pre, post)
    &&& forall|i: int| pre.len() <= i < post.len() ==> post[i] is GetInstant
}

/// Whether `post` is `pre` with nothing but timing answers appended.
pub open spec fn spec_appends_only_instants(
    pre: Seq<DownstreamMessage>,
    post: Seq<DownstreamMessage>,
) -> bool {
    &&& crate::utils::spec_prefix_of(pre, post)
    &&& forall|i: int| pre.len() <= i < post.len() ==> post[i] is Instant
}

/// One appended message either joins the reports or, as a query, leaves
/// them unchanged.
pub proof fn lemma_reports_push(s: Seq<UpstreamMessageView>, m: UpstreamMessageView)
    ensures
        spec_reports(s.push(m)) == (if m is GetInstant {
            spec_reports(s)
        } else {
            spec_reports(s).push(m)
        }),
{
    assert(s.push(m).drop_last() =~= s);
    assert(s.push(m).last() == m);
}

/// Appending only queries leaves the reports unchanged.
pub proof fn lemma_reports_of_queries(pre: Seq<UpstreamMessageView>, post: Seq<UpstreamMessageView>)
    requires
        spec_appends_only_queries(pre, post),
    ensures
        spec_reports(post) == spec_reports(pre),
    decreases post.len(),
{
    if post.len() == pre.len() {
        assert(post.take(pre.len() as int) =~= post);
    } else {
        let shorter = post.drop_last();
        assert(shorter.take(pre.len() as int) =~= post.take(pre.len() as int));
        assert(spec_appends_only_queries(pre, shorter));
        lemma_reports_of_queries(pre, shorter);
        assert(post.last() is GetInstant);
        assert(shorter.push(post.last()) =~= post);
        lemma_reports_push(shorter, post.last());
    }
}

/// Query-only extension reflexivity.
pub proof fn lemma_queries_refl(s: Seq<UpstreamMessageView>)
    ensures
        spec_appends_only_queries(s, s),
{
    crate::utils::lemma_prefix_refl(s);
}

/// Query-only extension composes.
pub proof fn lemma_queries_trans(
    a: Seq<UpstreamMessageView>,
    b: Seq<UpstreamMessageView>,
    c: Seq<UpstreamMessageView>,
)
    requires
        spec_appends_only_queries(a, b),
        spec_appends_only_queries(b, c),
    ensures
        spec_appends_only_queries(a, c),
{
    crate::utils::lemma_prefix_trans(a, b, c);
    assert forall|i: int| a.len() <= i < c.len() implies c[i] is GetInstant by {
        if i < b.len() {
            crate::utils::lemma_prefix_index(b, c, i);
        }
    }
}

/// Appending one query is a query-only extension.
pub proof fn lemma_queries_push(s: Seq<UpstreamMessageView>)
    ensures
        spec_appends_only_queries(s, s.push(UpstreamMessageView::GetInstant)),
{
    crate::utils::lemma_prefix_push(s, UpstreamMessageView::GetInstant);
}

/// Answer-only extension reflexivity.
pub proof fn lemma_instants_refl(s: Seq<DownstreamMessage>)
    ensures
        spec_appends_only_instants(s, s),
{
    crate::utils::lemma_prefix_refl(s);
}

/// Answer-only extension composes.
pub proof fn lemma_instants_trans(
    a: Seq<DownstreamMessage>,
    b: Seq<DownstreamMessage>,
    c: Seq<DownstreamMessage>,
)
    requires
        spec_appends_only_instants(a, b),
        spec_appends_only_instants(b, c),
    ensures
        spec_appends_only_instants(a, c),
{
    crate::utils::lemma_prefix_trans(a, b, c);
    assert forall|i: int| a.len() <= i < c.len() implies c[i] is Instant by {
        if i < b.len() {
            crate::utils::lemma_prefix_index(b, c, i);
        }
    }
}

/// Appending one answer is an answer-only extension.
pub proof fn lemma_instants_push(s: Seq<DownstreamMessage>, i: Instant)
    ensures
        spec_appends_only_instants(s, s.push(DownstreamMessage::Instant(i))),
{
    crate::utils::lemma_prefix_push(s, DownstreamMessage::Instant(i));
}

} // verus!

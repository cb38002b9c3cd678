//! Whole sessions: two simulated peers over the in-process proxy.

use farcri::bencher::Bencher;
use farcri::criterion::{run_benchmarks, BenchSuite, Criterion};
use farcri::error::LinkError;
use farcri::func::BenchRoutine;
use farcri::link::LinkIo;
use farcri::protocol::{Mode, Throughput, UpstreamMessage};
use farcri::session::SimProxy;

const SEC: u64 = 1_000_000_000;

fn test_nonce() -> Vec<u8> {
    (0..16u8).map(|i| 0x80 + i).collect()
}

/// A routine that iterates as it must.
struct Quick;

impl BenchRoutine for Quick {
    fn run<Io: LinkIo>(&mut self, b: &mut Bencher<Io>) {
        b.iter(|| 1u64 + 1);
    }
}

/// A routine that forgets to iterate: an authoring error the engine must
/// catch.
struct Lazy;

impl BenchRoutine for Lazy {
    fn run<Io: LinkIo>(&mut self, _b: &mut Bencher<Io>) {}
}

struct OneGroup;

impl BenchSuite for OneGroup {
    fn register<Io: LinkIo>(&mut self, c: &mut Criterion<Io>) {
        let mut group = c.benchmark_group("sorting");
        group.throughput(Throughput::Elements(64));
        group.bench_function("quick", &mut Quick);
        group.finish();
    }
}

struct LazyGroup;

impl BenchSuite for LazyGroup {
    fn register<Io: LinkIo>(&mut self, c: &mut Criterion<Io>) {
        let mut group = c.benchmark_group("broken");
        group.bench_function("lazy", &mut Lazy);
        group.finish();
    }
}

#[test]
fn benchmark_session_with_duplicated_handshake() {
    // The initiator sends 3 duplicate sync packets before the echo is
    // consumed; the handshake must still complete and the framed greeting
    // must decode, carrying the session through to the end message.
    let proxy = SimProxy::new(Mode::Benchmark, test_nonce(), 3, SEC, 7);
    let proxy = run_benchmarks(&mut OneGroup, proxy, 1024).unwrap();
    assert!(proxy.is_done());
    assert!(!proxy.is_failed());

    let msgs = proxy.messages();
    assert!(matches!(
        &msgs[0],
        UpstreamMessage::BeginningBenchmarkGroup { group } if group == b"sorting"
    ));
    match &msgs[1] {
        UpstreamMessage::BeginningBenchmark { id } => {
            assert_eq!(id.group_id, b"sorting".to_vec());
            assert_eq!(id.function_id, Some(b"quick".to_vec()));
            assert_eq!(id.throughput, Some(Throughput::Elements(64)));
        }
        other => panic!("wrong message: {:?}", other),
    }
    assert!(matches!(&msgs[2], UpstreamMessage::Warmup { .. }));
    assert!(msgs.iter().any(|m| matches!(m, UpstreamMessage::MeasurementStart { .. })));
    assert!(matches!(msgs[msgs.len() - 2], UpstreamMessage::FinishedBenchmarkGroup));
    assert!(matches!(msgs[msgs.len() - 1], UpstreamMessage::End));
}

#[test]
fn benchmark_session_measures_deterministically() {
    // The simulated wall clock advances one second per timing query, so
    // the default 3 s warm-up takes calls of 1, 2, 4 and 8 iterations
    // (15 in 4 s); the 5 s budget over 50 samples floors at 1 iteration
    // per sample. The cycle counter advances 7 per reading, so every
    // sample measures exactly 7.
    let proxy = SimProxy::new(Mode::Benchmark, test_nonce(), 1, SEC, 7);
    let proxy = run_benchmarks(&mut OneGroup, proxy, 1024).unwrap();
    let complete = proxy
        .messages()
        .iter()
        .find_map(|m| match m {
            UpstreamMessage::MeasurementComplete { num_iters_per_sample, values, .. } => {
                Some((*num_iters_per_sample, values.clone()))
            }
            _ => None,
        })
        .expect("no measurement reported");
    let (iters_per_sample, values) = complete;
    assert_eq!(iters_per_sample, 1);
    assert_eq!(values.len(), 50);
    assert!(values.iter().all(|&v| v == 7));
    let start = proxy
        .messages()
        .iter()
        .find_map(|m| match m {
            UpstreamMessage::MeasurementStart { warm_up_iter_count, num_samples, num_iters, .. } => {
                Some((*warm_up_iter_count, *num_samples, *num_iters))
            }
            _ => None,
        })
        .expect("no measurement start");
    assert_eq!(start, (15, 50, 50));
}

#[test]
fn test_mode_runs_each_routine_once_without_measuring() {
    let proxy = SimProxy::new(Mode::Test, test_nonce(), 1, SEC, 7);
    let proxy = run_benchmarks(&mut OneGroup, proxy, 1024).unwrap();
    assert!(proxy.is_done());
    let msgs = proxy.messages();
    assert!(matches!(
        &msgs[0],
        UpstreamMessage::BeginningBenchmarkGroup { group } if group == b"sorting"
    ));
    assert!(matches!(msgs[1], UpstreamMessage::FinishedBenchmarkGroup));
    assert!(matches!(msgs[2], UpstreamMessage::End));
    assert_eq!(msgs.len(), 3);
}

#[test]
fn routine_that_never_iterates_is_fatal() {
    let proxy = SimProxy::new(Mode::Benchmark, test_nonce(), 1, SEC, 7);
    assert_eq!(
        run_benchmarks(&mut LazyGroup, proxy, 1024).unwrap_err(),
        LinkError::DidNotIterate
    );
}

#[test]
fn oversized_outgoing_packet_is_fatal() {
    // A link whose buffer cannot hold the measurement report: the framed
    // encoding exceeds the capacity, which must surface as the dedicated
    // error, not as truncation or corruption.
    let proxy = SimProxy::new(Mode::Benchmark, test_nonce(), 1, SEC, 7);
    assert_eq!(
        run_benchmarks(&mut OneGroup, proxy, 64).unwrap_err(),
        LinkError::SendPacketTooLarge
    );
}

struct LongName;

impl BenchSuite for LongName {
    fn register<Io: LinkIo>(&mut self, c: &mut Criterion<Io>) {
        // 127 ASCII bytes, then a two-byte scalar straddling the
        // 128-byte limit: the whole scalar must be dropped.
        let mut name = "x".repeat(127);
        name.push('\u{e9}');
        let mut group = c.benchmark_group(&name);
        group.bench_function("f", &mut Quick);
        group.finish();
    }
}

#[test]
fn group_names_are_truncated_at_scalar_boundaries() {
    let proxy = SimProxy::new(Mode::Benchmark, test_nonce(), 1, SEC, 7);
    let proxy = run_benchmarks(&mut LongName, proxy, 1024).unwrap();
    match &proxy.messages()[0] {
        UpstreamMessage::BeginningBenchmarkGroup { group } => {
            assert_eq!(group.len(), 127);
            assert!(group.iter().all(|&b| b == b'x'));
        }
        other => panic!("wrong message: {:?}", other),
    }
}

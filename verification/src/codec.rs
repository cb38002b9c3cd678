//! Canonical binary encoding of the link messages.
//!
//! Every message has exactly one encoding: a tag byte naming the variant,
//! followed by the variant's fields. Integers are 64-bit little-endian;
//! byte strings and sequences carry their length first; an optional field
//! carries a one-byte presence flag. Both peers are built from the same
//! source, so no other version of the encoding has to be accepted:
//! a decoder rejects anything that is not the canonical encoding of some
//! message.
//!
//! The decoder is specified by [`spec_decode_downstream`] and
//! [`spec_decode_upstream`], total functions on byte sequences; the
//! encoders by [`spec_encode_downstream`] and [`spec_encode_upstream`].
//! The round-trip lemmas tie the two together.

use vstd::prelude::*;

use crate::error::LinkError;
use crate::protocol::{
    BenchmarkConfig, DownstreamMessage, Mode, RawBenchmarkId, RawBenchmarkIdView, Throughput,
    UpstreamMessage, UpstreamMessageView,
};
use crate::time::{Duration, Instant};

verus! {

// ---------------------------------------------------------------------
// Primitives: 64-bit little-endian integers

/// The eight little-endian bytes of `n`.
pub open spec fn spec_u64_le(n: u64) -> Seq<u8> {
    seq![
        (n % 0x100) as u8,
        (n / 0x100 % 0x100) as u8,
        (n / 0x1_0000 % 0x100) as u8,
        (n / 0x100_0000 % 0x100) as u8,
        (n / 0x1_0000_0000 % 0x100) as u8,
        (n / 0x100_0000_0000 % 0x100) as u8,
        (n / 0x1_0000_0000_0000 % 0x100) as u8,
        (n / 0x100_0000_0000_0000 % 0x100) as u8,
    ]
}

/// The value of eight little-endian bytes.
pub open spec fn spec_u64_of_le(s: Seq<u8>) -> u64
    recommends
        s.len() == 8,
{
    (s[0] + s[1] * 0x100 + s[2] * 0x1_0000 + s[3] * 0x100_0000 + s[4] * 0x1_0000_0000 + s[5]
        * 0x100_0000_0000 + s[6] * 0x1_0000_0000_0000 + s[7] * 0x100_0000_0000_0000) as u64
}

/// Reading back the little-endian bytes of `n` gives `n`.
pub proof fn lemma_u64_le_round_trip(n: u64)
    ensures
        spec_u64_of_le(spec_u64_le(n)) == n,
{
    assert(n % 0x100 + (n / 0x100 % 0x100) * 0x100 + (n / 0x1_0000 % 0x100) * 0x1_0000 + (n
        / 0x100_0000 % 0x100) * 0x100_0000 + (n / 0x1_0000_0000 % 0x100) * 0x1_0000_0000 + (n
        / 0x100_0000_0000 % 0x100) * 0x100_0000_0000 + (n / 0x1_0000_0000_0000 % 0x100)
        * 0x1_0000_0000_0000 + (n / 0x100_0000_0000_0000 % 0x100) * 0x100_0000_0000_0000 == n)
        by (bit_vector);
}

/// Appends the little-endian bytes of `n`.
pub fn push_u64(out: &mut Vec<u8>, n: u64)
    ensures
        final(out)@ == old(out)@ + spec_u64_le(n),
{
    let ghost start = out@;
    out.push((n % 0x100) as u8);
    out.push((n / 0x100 % 0x100) as u8);
    out.push((n / 0x1_0000 % 0x100) as u8);
    out.push((n / 0x100_0000 % 0x100) as u8);
    out.push((n / 0x1_0000_0000 % 0x100) as u8);
    out.push((n / 0x100_0000_0000 % 0x100) as u8);
    out.push((n / 0x1_0000_0000_0000 % 0x100) as u8);
    out.push((n / 0x100_0000_0000_0000 % 0x100) as u8);
    proof {
        assert(out@ =~= start + spec_u64_le(n));
    }
}

/// Consumes one byte.
pub open spec fn spec_take_u8(s: Seq<u8>) -> Option<(u8, Seq<u8>)> {
    if s.len() >= 1 {
        Some((s[0], s.drop_first()))
    } else {
        None
    }
}

/// Consumes a 64-bit little-endian integer.
pub open spec fn spec_take_u64(s: Seq<u8>) -> Option<(u64, Seq<u8>)> {
    if s.len() >= 8 {
        Some((spec_u64_of_le(s.take(8)), s.skip(8)))
    } else {
        None
    }
}

/// Consuming what `spec_u64_le` produced yields the value back.
pub proof fn lemma_take_u64_of_le(n: u64, rest: Seq<u8>)
    ensures
        spec_take_u64(spec_u64_le(n) + rest) == Some((n, rest)),
{
    let s = spec_u64_le(n) + rest;
    assert(s.take(8) =~= spec_u64_le(n));
    assert(s.skip(8) =~= rest);
    lemma_u64_le_round_trip(n);
}

/// Reads one byte at the cursor, advancing it.
pub fn take_u8(b: &Vec<u8>, pos: &mut usize) -> (r: Result<u8, LinkError>)
    requires
        *old(pos) <= b@.len(),
    ensures
        *final(pos) <= b@.len(),
        match r {
            Ok(v) => {
                &&& spec_take_u8(b@.skip(*old(pos) as int)) == Some(
                    (v, b@.skip(*final(pos) as int)),
                )
                &&& *final(pos) == *old(pos) + 1
            },
            Err(e) => {
                &&& spec_take_u8(b@.skip(*old(pos) as int)) is None
                &&& e == LinkError::MalformedMessage
                &&& *final(pos) == *old(pos)
            },
        },
{
    if *pos < b.len() {
        let v = b[*pos];
        proof {
            assert(b@.skip(*pos as int)[0] == b@[*pos as int]);
            assert(b@.skip(*pos as int).drop_first() =~= b@.skip(*pos + 1));
        }
        *pos = *pos + 1;
        Ok(v)
    } else {
        proof {
            assert(b@.skip(*pos as int).len() == 0);
        }
        Err(LinkError::MalformedMessage)
    }
}

/// Reads a 64-bit little-endian integer at the cursor, advancing it.
pub fn take_u64(b: &Vec<u8>, pos: &mut usize) -> (r: Result<u64, LinkError>)
    requires
        *old(pos) <= b@.len(),
    ensures
        *final(pos) <= b@.len(),
        match r {
            Ok(v) => {
                &&& spec_take_u64(b@.skip(*old(pos) as int)) == Some(
                    (v, b@.skip(*final(pos) as int)),
                )
                &&& *final(pos) == *old(pos) + 8
            },
            Err(e) => {
                &&& spec_take_u64(b@.skip(*old(pos) as int)) is None
                &&& e == LinkError::MalformedMessage
                &&& *final(pos) == *old(pos)
            },
        },
{
    let ghost s = b@.skip(*pos as int);
    if b.len() - *pos >= 8 {
        let p = *pos;
        let mut v: u64 = b[p + 7] as u64;
        assert(v <= 0xff);
        v = v * 0x100 + b[p + 6] as u64;
        assert(v <= 0xffff);
        v = v * 0x100 + b[p + 5] as u64;
        assert(v <= 0xff_ffff);
        v = v * 0x100 + b[p + 4] as u64;
        assert(v <= 0xffff_ffff);
        v = v * 0x100 + b[p + 3] as u64;
        assert(v <= 0xff_ffff_ffff);
        v = v * 0x100 + b[p + 2] as u64;
        assert(v <= 0xffff_ffff_ffff);
        v = v * 0x100 + b[p + 1] as u64;
        assert(v <= 0xff_ffff_ffff_ffff);
        v = v * 0x100 + b[p] as u64;
        proof {
            assert(s.len() >= 8);
            assert forall|i: int| 0 <= i < 8 implies s.take(8)[i] == b@[p + i] by {}
            assert(v == spec_u64_of_le(s.take(8))) by {
                assert(s.take(8)[0] == b@[p as int]);
                assert(s.take(8)[1] == b@[p + 1]);
                assert(s.take(8)[2] == b@[p + 2]);
                assert(s.take(8)[3] == b@[p + 3]);
                assert(s.take(8)[4] == b@[p + 4]);
                assert(s.take(8)[5] == b@[p + 5]);
                assert(s.take(8)[6] == b@[p + 6]);
                assert(s.take(8)[7] == b@[p + 7]);
            }
            assert(s.skip(8) =~= b@.skip(*pos + 8));
        }
        *pos = *pos + 8;
        Ok(v)
    } else {
        proof {
            assert(s.len() < 8);
        }
        Err(LinkError::MalformedMessage)
    }
}

// ---------------------------------------------------------------------
// Length-prefixed byte strings and optional fields

/// A byte string: its length, then its bytes.
pub open spec fn spec_bytes_enc(b: Seq<u8>) -> Seq<u8>
    recommends
        b.len() <= usize::MAX,
{
    spec_u64_le(b.len() as u64) + b
}

/// Consumes a length-prefixed byte string.
pub open spec fn spec_take_bytes(s: Seq<u8>) -> Option<(Seq<u8>, Seq<u8>)> {
    match spec_take_u64(s) {
        Some((n, r)) => {
            if n <= r.len() {
                Some((r.take(n as int), r.skip(n as int)))
            } else {
                None
            }
        },
        None => None,
    }
}

/// An optional field: a presence flag, then the payload where present.
pub open spec fn spec_opt_bytes_enc(o: Option<Seq<u8>>) -> Seq<u8> {
    match o {
        None => seq![0u8],
        Some(b) => seq![1u8] + spec_bytes_enc(b),
    }
}

/// Consumes an optional byte string.
pub open spec fn spec_take_opt_bytes(s: Seq<u8>) -> Option<(Option<Seq<u8>>, Seq<u8>)> {
    match spec_take_u8(s) {
        Some((flag, r)) => {
            if flag == 0 {
                Some((None, r))
            } else if flag == 1 {
                match spec_take_bytes(r) {
                    Some((b, r2)) => Some((Some(b), r2)),
                    None => None,
                }
            } else {
                None
            }
        },
        None => None,
    }
}

/// A throughput: a unit tag, then the count.
pub open spec fn spec_throughput_enc(t: Throughput) -> Seq<u8> {
    match t {
        Throughput::Bytes(n) => seq![0u8] + spec_u64_le(n),
        Throughput::Elements(n) => seq![1u8] + spec_u64_le(n),
    }
}

/// Consumes a throughput.
pub open spec fn spec_take_throughput(s: Seq<u8>) -> Option<(Throughput, Seq<u8>)> {
    match spec_take_u8(s) {
        Some((tag, r)) => {
            match spec_take_u64(r) {
                Some((n, r2)) => {
                    if tag == 0 {
                        Some((Throughput::Bytes(n), r2))
                    } else if tag == 1 {
                        Some((Throughput::Elements(n), r2))
                    } else {
                        None
                    }
                },
                None => None,
            }
        },
        None => None,
    }
}

/// An optional throughput.
pub open spec fn spec_opt_throughput_enc(o: Option<Throughput>) -> Seq<u8> {
    match o {
        None => seq![0u8],
        Some(t) => seq![1u8] + spec_throughput_enc(t),
    }
}

/// Consumes an optional throughput.
pub open spec fn spec_take_opt_throughput(s: Seq<u8>) -> Option<(Option<Throughput>, Seq<u8>)> {
    match spec_take_u8(s) {
        Some((flag, r)) => {
            if flag == 0 {
                Some((None, r))
            } else if flag == 1 {
                match spec_take_throughput(r) {
                    Some((t, r2)) => Some((Some(t), r2)),
                    None => None,
                }
            } else {
                None
            }
        },
        None => None,
    }
}

// ---------------------------------------------------------------------
// Composite fields

/// A benchmark id: group, optional function, optional parameter text,
/// optional throughput.
pub open spec fn spec_id_enc(id: RawBenchmarkIdView) -> Seq<u8> {
    spec_bytes_enc(id.group_id) + spec_opt_bytes_enc(id.function_id) + spec_opt_bytes_enc(
        id.value_str,
    ) + spec_opt_throughput_enc(id.throughput)
}

/// Consumes a benchmark id.
pub open spec fn spec_take_id(s: Seq<u8>) -> Option<(RawBenchmarkIdView, Seq<u8>)> {
    match spec_take_bytes(s) {
        Some((g, r1)) => match spec_take_opt_bytes(r1) {
            Some((f, r2)) => match spec_take_opt_bytes(r2) {
                Some((v, r3)) => match spec_take_opt_throughput(r3) {
                    Some((t, r4)) => Some(
                        (
                            RawBenchmarkIdView {
                                group_id: g,
                                function_id: f,
                                value_str: v,
                                throughput: t,
                            },
                            r4,
                        ),
                    ),
                    None => None,
                },
                None => None,
            },
            None => None,
        },
        None => None,
    }
}

/// A benchmark configuration: its four fields, in order.
pub open spec fn spec_config_enc(c: BenchmarkConfig) -> Seq<u8> {
    spec_u64_le(c.measurement_time.0) + spec_u64_le(c.nresamples as u64) + spec_u64_le(
        c.sample_size as u64,
    ) + spec_u64_le(c.warm_up_time.0)
}

/// Consumes a benchmark configuration.
pub open spec fn spec_take_config(s: Seq<u8>) -> Option<(BenchmarkConfig, Seq<u8>)> {
    match spec_take_u64(s) {
        Some((mt, r1)) => match spec_take_u64(r1) {
            Some((nr, r2)) => match spec_take_u64(r2) {
                Some((ss, r3)) => match spec_take_u64(r3) {
                    Some((wt, r4)) => {
                        if nr <= usize::MAX && ss <= usize::MAX {
                            Some(
                                (
                                    BenchmarkConfig {
                                        measurement_time: Duration(mt),
                                        nresamples: nr as usize,
                                        sample_size: ss as usize,
                                        warm_up_time: Duration(wt),
                                    },
                                    r4,
                                ),
                            )
                        } else {
                            None
                        }
                    },
                    None => None,
                },
                None => None,
            },
            None => None,
        },
        None => None,
    }
}

/// The bare concatenation of 64-bit values.
pub open spec fn spec_u64s_enc(vs: Seq<u64>) -> Seq<u8>
    decreases vs.len(),
{
    if vs.len() == 0 {
        Seq::empty()
    } else {
        spec_u64_le(vs[0]) + spec_u64s_enc(vs.drop_first())
    }
}

/// A value sequence: its count, then the values.
pub open spec fn spec_values_enc(vs: Seq<u64>) -> Seq<u8>
    recommends
        vs.len() <= usize::MAX,
{
    spec_u64_le(vs.len() as u64) + spec_u64s_enc(vs)
}

/// Consumes exactly `k` 64-bit values.
pub open spec fn spec_take_u64s(s: Seq<u8>, k: nat) -> Option<(Seq<u64>, Seq<u8>)>
    decreases k,
{
    if k == 0 {
        Some((Seq::empty(), s))
    } else {
        match spec_take_u64(s) {
            Some((v, r)) => match spec_take_u64s(r, (k - 1) as nat) {
                Some((vs, r2)) => Some((seq![v] + vs, r2)),
                None => None,
            },
            None => None,
        }
    }
}

/// Consumes a counted value sequence.
pub open spec fn spec_take_values(s: Seq<u8>) -> Option<(Seq<u64>, Seq<u8>)> {
    match spec_take_u64(s) {
        Some((n, r)) => spec_take_u64s(r, n as nat),
        None => None,
    }
}

// ---------------------------------------------------------------------
// Messages

/// The byte of an execution mode.
pub open spec fn spec_mode_byte(m: Mode) -> u8 {
    match m {
        Mode::Benchmark => 0u8,
        Mode::Test => 1u8,
    }
}

/// The canonical encoding of a downstream message.
pub open spec fn spec_encode_downstream(m: DownstreamMessage) -> Seq<u8> {
    match m {
        DownstreamMessage::Greeting { mode } => seq![0u8, spec_mode_byte(mode)],
        DownstreamMessage::Continue => seq![1u8],
        DownstreamMessage::Instant(i) => seq![2u8] + spec_u64_le(i.0),
    }
}

/// The downstream message encoded by a byte sequence, if any. A decoder
/// accepts exactly the canonical encodings.
pub open spec fn spec_decode_downstream(s: Seq<u8>) -> Option<DownstreamMessage> {
    match spec_take_u8(s) {
        Some((tag, r)) => {
            if tag == 0 {
                if r.len() == 1 && r[0] == 0 {
                    Some(DownstreamMessage::Greeting { mode: Mode::Benchmark })
                } else if r.len() == 1 && r[0] == 1 {
                    Some(DownstreamMessage::Greeting { mode: Mode::Test })
                } else {
                    None
                }
            } else if tag == 1 {
                if r.len() == 0 {
                    Some(DownstreamMessage::Continue)
                } else {
                    None
                }
            } else if tag == 2 {
                match spec_take_u64(r) {
                    Some((n, r2)) => {
                        if r2.len() == 0 {
                            Some(DownstreamMessage::Instant(Instant(n)))
                        } else {
                            None
                        }
                    },
                    None => None,
                }
            } else {
                None
            }
        },
        None => None,
    }
}

/// The canonical encoding of an upstream message.
pub open spec fn spec_encode_upstream(m: UpstreamMessageView) -> Seq<u8> {
    match m {
        UpstreamMessageView::BeginningBenchmarkGroup { group } => seq![0u8] + spec_bytes_enc(group),
        UpstreamMessageView::FinishedBenchmarkGroup => seq![1u8],
        UpstreamMessageView::BeginningBenchmark { id } => seq![2u8] + spec_id_enc(id),
        UpstreamMessageView::SkippingBenchmark { id } => seq![3u8] + spec_id_enc(id),
        UpstreamMessageView::Warmup { warm_up_goal_duration } => seq![4u8] + spec_u64_le(
            warm_up_goal_duration.0,
        ),
        UpstreamMessageView::MeasurementStart {
            warm_up_iter_count,
            warm_up_duration,
            num_samples,
            num_iters,
        } => seq![5u8] + spec_u64_le(warm_up_iter_count) + spec_u64_le(warm_up_duration.0)
            + spec_u64_le(num_samples as u64) + spec_u64_le(num_iters),
        UpstreamMessageView::MeasurementComplete {
            num_iters_per_sample,
            values,
            benchmark_config,
        } => seq![6u8] + spec_u64_le(num_iters_per_sample) + spec_values_enc(values)
            + spec_config_enc(benchmark_config),
        UpstreamMessageView::End => seq![7u8],
        UpstreamMessageView::GetInstant => seq![8u8],
    }
}

/// The upstream message encoded by a byte sequence, if any.
pub open spec fn spec_decode_upstream(s: Seq<u8>) -> Option<UpstreamMessageView> {
    match spec_take_u8(s) {
        Some((tag, r)) => {
            if tag == 0 {
                match spec_take_bytes(r) {
                    Some((g, r2)) => {
                        if r2.len() == 0 {
                            Some(UpstreamMessageView::BeginningBenchmarkGroup { group: g })
                        } else {
                            None
                        }
                    },
                    None => None,
                }
            } else if tag == 1 {
                if r.len() == 0 {
                    Some(UpstreamMessageView::FinishedBenchmarkGroup)
                } else {
                    None
                }
            } else if tag == 2 || tag == 3 {
                match spec_take_id(r) {
                    Some((id, r2)) => {
                        if r2.len() == 0 {
                            if tag == 2 {
                                Some(UpstreamMessageView::BeginningBenchmark { id })
                            } else {
                                Some(UpstreamMessageView::SkippingBenchmark { id })
                            }
                        } else {
                            None
                        }
                    },
                    None => None,
                }
            } else if tag == 4 {
                match spec_take_u64(r) {
                    Some((n, r2)) => {
                        if r2.len() == 0 {
                            Some(
                                UpstreamMessageView::Warmup {
                                    warm_up_goal_duration: Duration(n),
                                },
                            )
                        } else {
                            None
                        }
                    },
                    None => None,
                }
            } else if tag == 5 {
                match spec_take_u64(r) {
                    Some((wic, r1)) => match spec_take_u64(r1) {
                        Some((wd, r2)) => match spec_take_u64(r2) {
                            Some((ns, r3)) => match spec_take_u64(r3) {
                                Some((ni, r4)) => {
                                    if r4.len() == 0 && ns <= usize::MAX {
                                        Some(
                                            UpstreamMessageView::MeasurementStart {
                                                warm_up_iter_count: wic,
                                                warm_up_duration: Duration(wd),
                                                num_samples: ns as usize,
                                                num_iters: ni,
                                            },
                                        )
                                    } else {
                                        None
                                    }
                                },
                                None => None,
                            },
                            None => None,
                        },
                        None => None,
                    },
                    None => None,
                }
            } else if tag == 6 {
                match spec_take_u64(r) {
                    Some((nips, r1)) => match spec_take_values(r1) {
                        Some((vs, r2)) => match spec_take_config(r2) {
                            Some((c, r3)) => {
                                if r3.len() == 0 {
                                    Some(
                                        UpstreamMessageView::MeasurementComplete {
                                            num_iters_per_sample: nips,
                                            values: vs,
                                            benchmark_config: c,
                                        },
                                    )
                                } else {
                                    None
                                }
                            },
                            None => None,
                        },
                        None => None,
                    },
                    None => None,
                }
            } else if tag == 7 {
                if r.len() == 0 {
                    Some(UpstreamMessageView::End)
                } else {
                    None
                }
            } else if tag == 8 {
                if r.len() == 0 {
                    Some(UpstreamMessageView::GetInstant)
                } else {
                    None
                }
            } else {
                None
            }
        },
        None => None,
    }
}

/// The machine bounds under which an upstream message is encodable: every
/// sequence it holds fits in a `usize` count. Every message built from
/// executable vectors meets them.
pub open spec fn spec_id_wf(id: RawBenchmarkIdView) -> bool {
    &&& id.group_id.len() <= usize::MAX
    &&& match id.function_id {
        Some(f) => f.len() <= usize::MAX,
        None => true,
    }
    &&& match id.value_str {
        Some(v) => v.len() <= usize::MAX,
        None => true,
    }
}

/// See [`spec_id_wf`].
pub open spec fn spec_upstream_wf(m: UpstreamMessageView) -> bool {
    match m {
        UpstreamMessageView::BeginningBenchmarkGroup { group } => group.len() <= usize::MAX,
        UpstreamMessageView::BeginningBenchmark { id } => spec_id_wf(id),
        UpstreamMessageView::SkippingBenchmark { id } => spec_id_wf(id),
        UpstreamMessageView::MeasurementComplete { values, .. } => values.len() <= usize::MAX,
        _ => true,
    }
}

// ---------------------------------------------------------------------
// Executable encoders

/// Appends a length-prefixed byte string.
pub fn push_bytes(out: &mut Vec<u8>, b: &Vec<u8>)
    ensures
        final(out)@ == old(out)@ + spec_bytes_enc(b@),
{
    let ghost start = out@;
    push_u64(out, b.len() as u64);
    let ghost mid = out@;
    let mut i: usize = 0;
    while i < b.len()
        invariant
            i <= b@.len(),
            out@ == mid + b@.take(i as int),
        decreases b@.len() - i,
    {
        out.push(b[i]);
        proof {
            assert((mid + b@.take(i as int)).push(b@[i as int]) =~= mid + b@.take(i + 1));
        }
        i = i + 1;
    }
    proof {
        assert(b@.take(b@.len() as int) =~= b@);
        assert(mid + b@ =~= start + spec_bytes_enc(b@));
    }
}

/// Appends an optional byte string.
pub fn push_opt_bytes(out: &mut Vec<u8>, o: &Option<Vec<u8>>)
    ensures
        final(out)@ == old(out)@ + spec_opt_bytes_enc(
            match o {
                Some(b) => Some(b@),
                None => None,
            },
        ),
{
    let ghost start = out@;
    match o {
        None => {
            out.push(0u8);
            proof {
                assert(out@ =~= start + seq![0u8]);
            }
        },
        Some(b) => {
            out.push(1u8);
            let ghost mid = out@;
            proof {
                assert(mid =~= start + seq![1u8]);
            }
            push_bytes(out, b);
            proof {
                assert((start + seq![1u8]) + spec_bytes_enc(b@) =~= start + (seq![1u8]
                    + spec_bytes_enc(b@)));
            }
        },
    }
}

/// Appends a throughput.
pub fn push_throughput(out: &mut Vec<u8>, t: &Throughput)
    ensures
        final(out)@ == old(out)@ + spec_throughput_enc(*t),
{
    let ghost start = out@;
    let (tag, n): (u8, u64) = match t {
        Throughput::Bytes(n) => (0u8, *n),
        Throughput::Elements(n) => (1u8, *n),
    };
    out.push(tag);
    let ghost mid = out@;
    push_u64(out, n);
    proof {
        assert(mid =~= start + seq![tag]);
        assert((start + seq![tag]) + spec_u64_le(n) =~= start + (seq![tag] + spec_u64_le(n)));
    }
}

/// Appends an optional throughput.
pub fn push_opt_throughput(out: &mut Vec<u8>, o: &Option<Throughput>)
    ensures
        final(out)@ == old(out)@ + spec_opt_throughput_enc(*o),
{
    let ghost start = out@;
    match o {
        None => {
            out.push(0u8);
            proof {
                assert(out@ =~= start + seq![0u8]);
            }
        },
        Some(t) => {
            out.push(1u8);
            proof {
                assert(out@ =~= start + seq![1u8]);
            }
            push_throughput(out, t);
            proof {
                assert((start + seq![1u8]) + spec_throughput_enc(*t) =~= start + (seq![1u8]
                    + spec_throughput_enc(*t)));
            }
        },
    }
}

/// Appends a benchmark id.
pub fn push_id(out: &mut Vec<u8>, id: &RawBenchmarkId)
    ensures
        final(out)@ == old(out)@ + spec_id_enc(id@),
{
    let ghost start = out@;
    push_bytes(out, &id.group_id);
    push_opt_bytes(out, &id.function_id);
    push_opt_bytes(out, &id.value_str);
    push_opt_throughput(out, &id.throughput);
    proof {
        assert(out@ =~= start + spec_id_enc(id@));
    }
}

/// Appends a benchmark configuration.
pub fn push_config(out: &mut Vec<u8>, c: &BenchmarkConfig)
    ensures
        final(out)@ == old(out)@ + spec_config_enc(*c),
{
    let ghost start = out@;
    push_u64(out, c.measurement_time.as_nanos());
    push_u64(out, c.nresamples as u64);
    push_u64(out, c.sample_size as u64);
    push_u64(out, c.warm_up_time.as_nanos());
    proof {
        assert(out@ =~= start + spec_config_enc(*c));
    }
}

/// `spec_u64s_enc` grows one value at a time.
proof fn lemma_u64s_enc_snoc(vs: Seq<u64>, v: u64)
    ensures
        spec_u64s_enc(vs.push(v)) == spec_u64s_enc(vs) + spec_u64_le(v),
    decreases vs.len(),
{
    if vs.len() == 0 {
        assert(vs.push(v)[0] == v);
        assert(vs.push(v).drop_first() =~= Seq::<u64>::empty());
        assert(spec_u64s_enc(vs.push(v)) == spec_u64_le(v) + spec_u64s_enc(Seq::<u64>::empty()));
        assert(spec_u64_le(v) + Seq::<u8>::empty() =~= spec_u64_le(v));
        assert(spec_u64s_enc(vs) + spec_u64_le(v) =~= spec_u64_le(v));
    } else {
        assert(vs.push(v)[0] == vs[0]);
        assert(vs.push(v).drop_first() =~= vs.drop_first().push(v));
        lemma_u64s_enc_snoc(vs.drop_first(), v);
        assert(spec_u64s_enc(vs.push(v)) =~= spec_u64s_enc(vs) + spec_u64_le(v));
    }
}

/// Appends a counted value sequence.
pub fn push_values(out: &mut Vec<u8>, vs: &Vec<u64>)
    ensures
        final(out)@ == old(out)@ + spec_values_enc(vs@),
{
    let ghost start = out@;
    push_u64(out, vs.len() as u64);
    let ghost mid = out@;
    let mut i: usize = 0;
    while i < vs.len()
        invariant
            i <= vs@.len(),
            out@ == mid + spec_u64s_enc(vs@.take(i as int)),
        decreases vs@.len() - i,
    {
        proof {
            assert(mid + spec_u64s_enc(vs@.take(i as int)) =~= out@);
        }
        let ghost before = out@;
        push_u64(out, vs[i]);
        proof {
            lemma_u64s_enc_snoc(vs@.take(i as int), vs@[i as int]);
            assert(vs@.take(i as int).push(vs@[i as int]) =~= vs@.take(i + 1));
            assert(out@ =~= mid + spec_u64s_enc(vs@.take(i + 1)));
        }
        i = i + 1;
    }
    proof {
        assert(vs@.take(vs@.len() as int) =~= vs@);
        assert(mid + spec_u64s_enc(vs@) =~= start + spec_values_enc(vs@));
    }
}

// ---------------------------------------------------------------------
// Executable decoders

/// Reads a length-prefixed byte string at the cursor, advancing it.
pub fn take_bytes(b: &Vec<u8>, pos: &mut usize) -> (r: Result<Vec<u8>, LinkError>)
    requires
        *old(pos) <= b@.len(),
    ensures
        *final(pos) <= b@.len(),
        match r {
            Ok(v) => spec_take_bytes(b@.skip(*old(pos) as int)) == Some(
                (v@, b@.skip(*final(pos) as int)),
            ),
            Err(e) => spec_take_bytes(b@.skip(*old(pos) as int)) is None && e
                == LinkError::MalformedMessage,
        },
{
    let ghost s = b@.skip(*pos as int);
    let n = match take_u64(b, pos) {
        Ok(n) => n,
        Err(e) => {
            return Err(e);
        },
    };
    let remaining = b.len() - *pos;
    if n > remaining as u64 {
        return Err(LinkError::MalformedMessage);
    }
    let len = n as usize;
    let start = *pos;
    let mut v: Vec<u8> = Vec::new();
    let mut i: usize = 0;
    while i < len
        invariant
            i <= len,
            start + len <= b@.len(),
            b@.len() <= usize::MAX,
            v@ == b@.subrange(start as int, start + i),
        decreases len - i,
    {
        v.push(b[start + i]);
        proof {
            assert(b@.subrange(start as int, start + i).push(b@[start + i]) =~= b@.subrange(
                start as int,
                start + i + 1,
            ));
        }
        i = i + 1;
    }
    *pos = start + len;
    proof {
        let r0 = b@.skip(start as int);
        assert(r0.take(n as int) =~= b@.subrange(start as int, start + len));
        assert(r0.skip(n as int) =~= b@.skip(start + len));
    }
    Ok(v)
}

/// Reads an optional byte string at the cursor, advancing it.
pub fn take_opt_bytes(b: &Vec<u8>, pos: &mut usize) -> (r: Result<Option<Vec<u8>>, LinkError>)
    requires
        *old(pos) <= b@.len(),
    ensures
        *final(pos) <= b@.len(),
        match r {
            Ok(o) => spec_take_opt_bytes(b@.skip(*old(pos) as int)) == Some(
                (
                    match o {
                        Some(v) => Some(v@),
                        None => None,
                    },
                    b@.skip(*final(pos) as int),
                ),
            ),
            Err(e) => spec_take_opt_bytes(b@.skip(*old(pos) as int)) is None && e
                == LinkError::MalformedMessage,
        },
{
    let flag = match take_u8(b, pos) {
        Ok(f) => f,
        Err(e) => {
            return Err(e);
        },
    };
    if flag == 0 {
        Ok(None)
    } else if flag == 1 {
        match take_bytes(b, pos) {
            Ok(v) => Ok(Some(v)),
            Err(e) => Err(e),
        }
    } else {
        Err(LinkError::MalformedMessage)
    }
}

/// Reads a throughput at the cursor, advancing it.
pub fn take_throughput(b: &Vec<u8>, pos: &mut usize) -> (r: Result<Throughput, LinkError>)
    requires
        *old(pos) <= b@.len(),
    ensures
        *final(pos) <= b@.len(),
        match r {
            Ok(t) => spec_take_throughput(b@.skip(*old(pos) as int)) == Some(
                (t, b@.skip(*final(pos) as int)),
            ),
            Err(e) => spec_take_throughput(b@.skip(*old(pos) as int)) is None && e
                == LinkError::MalformedMessage,
        },
{
    let tag = match take_u8(b, pos) {
        Ok(t) => t,
        Err(e) => {
            return Err(e);
        },
    };
    let n = match take_u64(b, pos) {
        Ok(n) => n,
        Err(e) => {
            return Err(e);
        },
    };
    if tag == 0 {
        Ok(Throughput::Bytes(n))
    } else if tag == 1 {
        Ok(Throughput::Elements(n))
    } else {
        Err(LinkError::MalformedMessage)
    }
}

/// Reads an optional throughput at the cursor, advancing it.
pub fn take_opt_throughput(b: &Vec<u8>, pos: &mut usize) -> (r: Result<
    Option<Throughput>,
    LinkError,
>)
    requires
        *old(pos) <= b@.len(),
    ensures
        *final(pos) <= b@.len(),
        match r {
            Ok(o) => spec_take_opt_throughput(b@.skip(*old(pos) as int)) == Some(
                (o, b@.skip(*final(pos) as int)),
            ),
            Err(e) => spec_take_opt_throughput(b@.skip(*old(pos) as int)) is None && e
                == LinkError::MalformedMessage,
        },
{
    let flag = match take_u8(b, pos) {
        Ok(f) => f,
        Err(e) => {
            return Err(e);
        },
    };
    if flag == 0 {
        Ok(None)
    } else if flag == 1 {
        match take_throughput(b, pos) {
            Ok(t) => Ok(Some(t)),
            Err(e) => Err(e),
        }
    } else {
        Err(LinkError::MalformedMessage)
    }
}

/// Reads a benchmark id at the cursor, advancing it.
pub fn take_id(b: &Vec<u8>, pos: &mut usize) -> (r: Result<RawBenchmarkId, LinkError>)
    requires
        *old(pos) <= b@.len(),
    ensures
        *final(pos) <= b@.len(),
        match r {
            Ok(id) => spec_take_id(b@.skip(*old(pos) as int)) == Some(
                (id@, b@.skip(*final(pos) as int)),
            ),
            Err(e) => spec_take_id(b@.skip(*old(pos) as int)) is None && e
                == LinkError::MalformedMessage,
        },
{
    let group_id = match take_bytes(b, pos) {
        Ok(v) => v,
        Err(e) => {
            return Err(e);
        },
    };
    let function_id = match take_opt_bytes(b, pos) {
        Ok(v) => v,
        Err(e) => {
            return Err(e);
        },
    };
    let value_str = match take_opt_bytes(b, pos) {
        Ok(v) => v,
        Err(e) => {
            return Err(e);
        },
    };
    let throughput = match take_opt_throughput(b, pos) {
        Ok(v) => v,
        Err(e) => {
            return Err(e);
        },
    };
    Ok(RawBenchmarkId { group_id, function_id, value_str, throughput })
}

/// Reads a benchmark configuration at the cursor, advancing it.
pub fn take_config(b: &Vec<u8>, pos: &mut usize) -> (r: Result<BenchmarkConfig, LinkError>)
    requires
        *old(pos) <= b@.len(),
    ensures
        *final(pos) <= b@.len(),
        match r {
            Ok(c) => spec_take_config(b@.skip(*old(pos) as int)) == Some(
                (c, b@.skip(*final(pos) as int)),
            ),
            Err(e) => spec_take_config(b@.skip(*old(pos) as int)) is None && e
                == LinkError::MalformedMessage,
        },
{
    let mt = match take_u64(b, pos) {
        Ok(n) => n,
        Err(e) => {
            return Err(e);
        },
    };
    let nr = match take_u64(b, pos) {
        Ok(n) => n,
        Err(e) => {
            return Err(e);
        },
    };
    let ss = match take_u64(b, pos) {
        Ok(n) => n,
        Err(e) => {
            return Err(e);
        },
    };
    let wt = match take_u64(b, pos) {
        Ok(n) => n,
        Err(e) => {
            return Err(e);
        },
    };
    if nr > usize::MAX as u64 || ss > usize::MAX as u64 {
        return Err(LinkError::MalformedMessage);
    }
    Ok(
        BenchmarkConfig {
            measurement_time: Duration::from_nanos(mt),
            nresamples: nr as usize,
            sample_size: ss as usize,
            warm_up_time: Duration::from_nanos(wt),
        },
    )
}

/// Prefixes already-read values onto the outcome of reading the rest.
spec fn spec_prepend_u64s(pre: Seq<u64>, o: Option<(Seq<u64>, Seq<u8>)>) -> Option<
    (Seq<u64>, Seq<u8>),
> {
    match o {
        Some((vs, r)) => Some((pre + vs, r)),
        None => None,
    }
}

proof fn lemma_prepend_u64s_assoc(a: Seq<u64>, b: Seq<u64>, o: Option<(Seq<u64>, Seq<u8>)>)
    ensures
        spec_prepend_u64s(a, spec_prepend_u64s(b, o)) == spec_prepend_u64s(a + b, o),
{
    match o {
        Some((vs, r)) => {
            assert(a + (b + vs) =~= (a + b) + vs);
        },
        None => {},
    }
}

/// Reads a counted value sequence at the cursor, advancing it.
pub fn take_values(b: &Vec<u8>, pos: &mut usize) -> (r: Result<Vec<u64>, LinkError>)
    requires
        *old(pos) <= b@.len(),
    ensures
        *final(pos) <= b@.len(),
        match r {
            Ok(vs) => spec_take_values(b@.skip(*old(pos) as int)) == Some(
                (vs@, b@.skip(*final(pos) as int)),
            ),
            Err(e) => spec_take_values(b@.skip(*old(pos) as int)) is None && e
                == LinkError::MalformedMessage,
        },
{
    let ghost s0 = b@.skip(*pos as int);
    let count = match take_u64(b, pos) {
        Ok(n) => n,
        Err(e) => {
            return Err(e);
        },
    };
    let ghost r0 = b@.skip(*pos as int);
    let mut vs: Vec<u64> = Vec::new();
    let mut i: u64 = 0;
    proof {
        assert(spec_take_values(s0) == spec_take_u64s(r0, count as nat));
        assert(spec_prepend_u64s(Seq::empty(), spec_take_u64s(r0, count as nat)) == spec_take_u64s(
            r0,
            count as nat,
        ));
        assert(Seq::<u64>::empty() + vs@ =~= vs@);
    }
    while i < count
        invariant
            i <= count,
            *pos <= b@.len(),
            vs@.len() == i,
            s0 == b@.skip(*old(pos) as int),
            spec_take_values(s0) == spec_prepend_u64s(
                vs@,
                spec_take_u64s(b@.skip(*pos as int), (count - i) as nat),
            ),
        decreases count - i,
    {
        let ghost cur = b@.skip(*pos as int);
        let ghost acc = vs@;
        let v = match take_u64(b, pos) {
            Ok(v) => v,
            Err(e) => {
                proof {
                    assert(spec_take_u64s(cur, (count - i) as nat) is None);
                }
                return Err(e);
            },
        };
        vs.push(v);
        proof {
            assert(spec_take_u64s(cur, (count - i) as nat) == spec_prepend_u64s(
                seq![v],
                spec_take_u64s(b@.skip(*pos as int), (count - i - 1) as nat),
            ));
            lemma_prepend_u64s_assoc(
                acc,
                seq![v],
                spec_take_u64s(b@.skip(*pos as int), (count - i - 1) as nat),
            );
            assert(acc + seq![v] =~= vs@);
        }
        i = i + 1;
    }
    proof {
        assert(spec_take_u64s(b@.skip(*pos as int), 0) == Some(
            (Seq::<u64>::empty(), b@.skip(*pos as int)),
        ));
        assert(vs@ + Seq::<u64>::empty() =~= vs@);
    }
    Ok(vs)
}

/// Decodes a framed payload as a downstream message. Fails exactly where
/// the payload is not the canonical encoding of one.
pub fn decode_downstream(bytes: &Vec<u8>) -> (r: Result<DownstreamMessage, LinkError>)
    ensures
        match r {
            Ok(m) => spec_decode_downstream(bytes@) == Some(m),
            Err(e) => spec_decode_downstream(bytes@) is None && e == LinkError::MalformedMessage,
        },
{
    let mut pos: usize = 0;
    proof {
        assert(bytes@.skip(0) =~= bytes@);
    }
    let tag = match take_u8(bytes, &mut pos) {
        Ok(t) => t,
        Err(e) => {
            return Err(e);
        },
    };
    let ghost r1 = bytes@.skip(pos as int);
    if tag == 0 {
        if bytes.len() != 2 {
            return Err(LinkError::MalformedMessage);
        }
        let mb = bytes[1];
        proof {
            assert(r1.len() == 1 && r1[0] == bytes@[1]);
        }
        if mb == 0 {
            Ok(DownstreamMessage::Greeting { mode: Mode::Benchmark })
        } else if mb == 1 {
            Ok(DownstreamMessage::Greeting { mode: Mode::Test })
        } else {
            Err(LinkError::MalformedMessage)
        }
    } else if tag == 1 {
        if bytes.len() != 1 {
            return Err(LinkError::MalformedMessage);
        }
        Ok(DownstreamMessage::Continue)
    } else if tag == 2 {
        let n = match take_u64(bytes, &mut pos) {
            Ok(n) => n,
            Err(e) => {
                return Err(e);
            },
        };
        if pos != bytes.len() {
            return Err(LinkError::MalformedMessage);
        }
        proof {
            assert(bytes@.skip(pos as int).len() == 0);
        }
        Ok(DownstreamMessage::Instant(Instant::from_nanos(n)))
    } else {
        Err(LinkError::MalformedMessage)
    }
}

/// Decodes a framed payload as an upstream message. Fails exactly where
/// the payload is not the canonical encoding of one.
#[verifier::rlimit(60)]
pub fn decode_upstream(bytes: &Vec<u8>) -> (r: Result<UpstreamMessage, LinkError>)
    ensures
        match r {
            Ok(m) => spec_decode_upstream(bytes@) == Some(m@),
            Err(e) => spec_decode_upstream(bytes@) is None && e == LinkError::MalformedMessage,
        },
{
    let mut pos: usize = 0;
    proof {
        assert(bytes@.skip(0) =~= bytes@);
    }
    let tag = match take_u8(bytes, &mut pos) {
        Ok(t) => t,
        Err(e) => {
            return Err(e);
        },
    };
    if tag == 0 {
        let group = match take_bytes(bytes, &mut pos) {
            Ok(v) => v,
            Err(e) => {
                return Err(e);
            },
        };
        if pos != bytes.len() {
            return Err(LinkError::MalformedMessage);
        }
        proof {
            assert(bytes@.skip(pos as int).len() == 0);
        }
        Ok(UpstreamMessage::BeginningBenchmarkGroup { group })
    } else if tag == 1 {
        if bytes.len() != 1 {
            return Err(LinkError::MalformedMessage);
        }
        Ok(UpstreamMessage::FinishedBenchmarkGroup)
    } else if tag == 2 || tag == 3 {
        let id = match take_id(bytes, &mut pos) {
            Ok(v) => v,
            Err(e) => {
                return Err(e);
            },
        };
        if pos != bytes.len() {
            return Err(LinkError::MalformedMessage);
        }
        proof {
            assert(bytes@.skip(pos as int).len() == 0);
        }
        if tag == 2 {
            Ok(UpstreamMessage::BeginningBenchmark { id })
        } else {
            Ok(UpstreamMessage::SkippingBenchmark { id })
        }
    } else if tag == 4 {
        let n = match take_u64(bytes, &mut pos) {
            Ok(n) => n,
            Err(e) => {
                return Err(e);
            },
        };
        if pos != bytes.len() {
            return Err(LinkError::MalformedMessage);
        }
        proof {
            assert(bytes@.skip(pos as int).len() == 0);
        }
        Ok(UpstreamMessage::Warmup { warm_up_goal_duration: Duration::from_nanos(n) })
    } else if tag == 5 {
        let wic = match take_u64(bytes, &mut pos) {
            Ok(n) => n,
            Err(e) => {
                return Err(e);
            },
        };
        let wd = match take_u64(bytes, &mut pos) {
            Ok(n) => n,
            Err(e) => {
                return Err(e);
            },
        };
        let ns = match take_u64(bytes, &mut pos) {
            Ok(n) => n,
            Err(e) => {
                return Err(e);
            },
        };
        let ni = match take_u64(bytes, &mut pos) {
            Ok(n) => n,
            Err(e) => {
                return Err(e);
            },
        };
        if pos != bytes.len() || ns > usize::MAX as u64 {
            return Err(LinkError::MalformedMessage);
        }
        proof {
            assert(bytes@.skip(pos as int).len() == 0);
        }
        Ok(
            UpstreamMessage::MeasurementStart {
                warm_up_iter_count: wic,
                warm_up_duration: Duration::from_nanos(wd),
                num_samples: ns as usize,
                num_iters: ni,
            },
        )
    } else if tag == 6 {
        let nips = match take_u64(bytes, &mut pos) {
            Ok(n) => n,
            Err(e) => {
                return Err(e);
            },
        };
        let values = match take_values(bytes, &mut pos) {
            Ok(v) => v,
            Err(e) => {
                return Err(e);
            },
        };
        let benchmark_config = match take_config(bytes, &mut pos) {
            Ok(c) => c,
            Err(e) => {
                return Err(e);
            },
        };
        if pos != bytes.len() {
            return Err(LinkError::MalformedMessage);
        }
        proof {
            assert(bytes@.skip(pos as int).len() == 0);
        }
        Ok(
            UpstreamMessage::MeasurementComplete {
                num_iters_per_sample: nips,
                values,
                benchmark_config,
            },
        )
    } else if tag == 7 {
        if bytes.len() != 1 {
            return Err(LinkError::MalformedMessage);
        }
        Ok(UpstreamMessage::End)
    } else if tag == 8 {
        if bytes.len() != 1 {
            return Err(LinkError::MalformedMessage);
        }
        Ok(UpstreamMessage::GetInstant)
    } else {
        Err(LinkError::MalformedMessage)
    }
}

/// Encodes a downstream message canonically.
pub fn encode_downstream(m: &DownstreamMessage) -> (r: Vec<u8>)
    ensures
        r@ == spec_encode_downstream(*m),
{
    let mut out: Vec<u8> = Vec::new();
    match m {
        DownstreamMessage::Greeting { mode } => {
            out.push(0u8);
            match mode {
                Mode::Benchmark => out.push(0u8),
                Mode::Test => out.push(1u8),
            }
            proof {
                assert(out@ =~= spec_encode_downstream(*m));
            }
        },
        DownstreamMessage::Continue => {
            out.push(1u8);
            proof {
                assert(out@ =~= spec_encode_downstream(*m));
            }
        },
        DownstreamMessage::Instant(i) => {
            out.push(2u8);
            push_u64(&mut out, i.as_nanos());
            proof {
                assert(out@ =~= spec_encode_downstream(*m));
            }
        },
    }
    out
}

/// Encodes an upstream message canonically.
pub fn encode_upstream(m: &UpstreamMessage) -> (r: Vec<u8>)
    ensures
        r@ == spec_encode_upstream(m@),
{
    let mut out: Vec<u8> = Vec::new();
    match m {
        UpstreamMessage::BeginningBenchmarkGroup { group } => {
            out.push(0u8);
            push_bytes(&mut out, group);
        },
        UpstreamMessage::FinishedBenchmarkGroup => {
            out.push(1u8);
        },
        UpstreamMessage::BeginningBenchmark { id } => {
            out.push(2u8);
            push_id(&mut out, id);
        },
        UpstreamMessage::SkippingBenchmark { id } => {
            out.push(3u8);
            push_id(&mut out, id);
        },
        UpstreamMessage::Warmup { warm_up_goal_duration } => {
            out.push(4u8);
            push_u64(&mut out, warm_up_goal_duration.as_nanos());
        },
        UpstreamMessage::MeasurementStart {
            warm_up_iter_count,
            warm_up_duration,
            num_samples,
            num_iters,
        } => {
            out.push(5u8);
            push_u64(&mut out, *warm_up_iter_count);
            push_u64(&mut out, warm_up_duration.as_nanos());
            push_u64(&mut out, *num_samples as u64);
            push_u64(&mut out, *num_iters);
        },
        UpstreamMessage::MeasurementComplete {
            num_iters_per_sample,
            values,
            benchmark_config,
        } => {
            out.push(6u8);
            push_u64(&mut out, *num_iters_per_sample);
            push_values(&mut out, values);
            push_config(&mut out, benchmark_config);
        },
        UpstreamMessage::End => {
            out.push(7u8);
        },
        UpstreamMessage::GetInstant => {
            out.push(8u8);
        },
    }
    proof {
        assert(out@ =~= spec_encode_upstream(m@));
    }
    out
}

// ---------------------------------------------------------------------
// Round trips: decoding a canonical encoding gives the message back

proof fn lemma_take_u8_cons(t: u8, rest: Seq<u8>)
    ensures
        spec_take_u8(seq![t] + rest) == Some((t, rest)),
{
    assert((seq![t] + rest)[0] == t);
    assert((seq![t] + rest).drop_first() =~= rest);
}

/// Consuming what `spec_bytes_enc` produced yields the bytes back.
pub proof fn lemma_take_bytes_enc(bs: Seq<u8>, rest: Seq<u8>)
    requires
        bs.len() <= usize::MAX,
    ensures
        spec_take_bytes(spec_bytes_enc(bs) + rest) == Some((bs, rest)),
{
    let n = bs.len() as u64;
    assert(spec_bytes_enc(bs) + rest =~= spec_u64_le(n) + (bs + rest));
    lemma_take_u64_of_le(n, bs + rest);
    assert((bs + rest).take(n as int) =~= bs);
    assert((bs + rest).skip(n as int) =~= rest);
}

/// Consuming what `spec_opt_bytes_enc` produced yields the option back.
pub proof fn lemma_take_opt_bytes_enc(o: Option<Seq<u8>>, rest: Seq<u8>)
    requires
        match o {
            Some(b) => b.len() <= usize::MAX,
            None => true,
        },
    ensures
        spec_take_opt_bytes(spec_opt_bytes_enc(o) + rest) == Some((o, rest)),
{
    match o {
        None => {
            lemma_take_u8_cons(0u8, rest);
            assert(spec_opt_bytes_enc(o) + rest =~= seq![0u8] + rest);
        },
        Some(b) => {
            assert(spec_opt_bytes_enc(o) + rest =~= seq![1u8] + (spec_bytes_enc(b) + rest));
            lemma_take_u8_cons(1u8, spec_bytes_enc(b) + rest);
            lemma_take_bytes_enc(b, rest);
        },
    }
}

/// Consuming what `spec_throughput_enc` produced yields the value back.
pub proof fn lemma_take_throughput_enc(t: Throughput, rest: Seq<u8>)
    ensures
        spec_take_throughput(spec_throughput_enc(t) + rest) == Some((t, rest)),
{
    match t {
        Throughput::Bytes(n) => {
            assert(spec_throughput_enc(t) + rest =~= seq![0u8] + (spec_u64_le(n) + rest));
            lemma_take_u8_cons(0u8, spec_u64_le(n) + rest);
            lemma_take_u64_of_le(n, rest);
        },
        Throughput::Elements(n) => {
            assert(spec_throughput_enc(t) + rest =~= seq![1u8] + (spec_u64_le(n) + rest));
            lemma_take_u8_cons(1u8, spec_u64_le(n) + rest);
            lemma_take_u64_of_le(n, rest);
        },
    }
}

/// Consuming what `spec_opt_throughput_enc` produced yields the option back.
pub proof fn lemma_take_opt_throughput_enc(o: Option<Throughput>, rest: Seq<u8>)
    ensures
        spec_take_opt_throughput(spec_opt_throughput_enc(o) + rest) == Some((o, rest)),
{
    match o {
        None => {
            lemma_take_u8_cons(0u8, rest);
            assert(spec_opt_throughput_enc(o) + rest =~= seq![0u8] + rest);
        },
        Some(t) => {
            assert(spec_opt_throughput_enc(o) + rest =~= seq![1u8] + (spec_throughput_enc(t)
                + rest));
            lemma_take_u8_cons(1u8, spec_throughput_enc(t) + rest);
            lemma_take_throughput_enc(t, rest);
        },
    }
}

/// Consuming what `spec_id_enc` produced yields the id back.
#[verifier::rlimit(100)]
pub proof fn lemma_take_id_enc(id: RawBenchmarkIdView, rest: Seq<u8>)
    requires
        spec_id_wf(id),
    ensures
        spec_take_id(spec_id_enc(id) + rest) == Some((id, rest)),
{
    let a = spec_bytes_enc(id.group_id);
    let b = spec_opt_bytes_enc(id.function_id);
    let c = spec_opt_bytes_enc(id.value_str);
    let d = spec_opt_throughput_enc(id.throughput);
    assert(spec_id_enc(id) + rest =~= a + (b + (c + (d + rest))));
    lemma_take_bytes_enc(id.group_id, b + (c + (d + rest)));
    lemma_take_opt_bytes_enc(id.function_id, c + (d + rest));
    lemma_take_opt_bytes_enc(id.value_str, d + rest);
    lemma_take_opt_throughput_enc(id.throughput, rest);
}

/// Consuming what `spec_config_enc` produced yields the config back.
#[verifier::rlimit(100)]
pub proof fn lemma_take_config_enc(c: BenchmarkConfig, rest: Seq<u8>)
    ensures
        spec_take_config(spec_config_enc(c) + rest) == Some((c, rest)),
{
    let a = spec_u64_le(c.measurement_time.0);
    let b = spec_u64_le(c.nresamples as u64);
    let d = spec_u64_le(c.sample_size as u64);
    let e = spec_u64_le(c.warm_up_time.0);
    assert(spec_config_enc(c) + rest =~= a + (b + (d + (e + rest))));
    lemma_take_u64_of_le(c.measurement_time.0, b + (d + (e + rest)));
    lemma_take_u64_of_le(c.nresamples as u64, d + (e + rest));
    lemma_take_u64_of_le(c.sample_size as u64, e + rest);
    lemma_take_u64_of_le(c.warm_up_time.0, rest);
}

/// Consuming what `spec_u64s_enc` produced yields the values back.
pub proof fn lemma_take_u64s_enc(vs: Seq<u64>, rest: Seq<u8>)
    ensures
        spec_take_u64s(spec_u64s_enc(vs) + rest, vs.len()) == Some((vs, rest)),
    decreases vs.len(),
{
    if vs.len() == 0 {
        assert(spec_u64s_enc(vs) + rest =~= rest);
        assert(Seq::<u64>::empty() =~= vs);
    } else {
        let tail = vs.drop_first();
        assert(spec_u64s_enc(vs) + rest =~= spec_u64_le(vs[0]) + (spec_u64s_enc(tail) + rest));
        lemma_take_u64_of_le(vs[0], spec_u64s_enc(tail) + rest);
        lemma_take_u64s_enc(tail, rest);
        assert(seq![vs[0]] + tail =~= vs);
    }
}

/// Consuming what `spec_values_enc` produced yields the values back.
pub proof fn lemma_take_values_enc(vs: Seq<u64>, rest: Seq<u8>)
    requires
        vs.len() <= usize::MAX,
    ensures
        spec_take_values(spec_values_enc(vs) + rest) == Some((vs, rest)),
{
    let n = vs.len() as u64;
    assert(spec_values_enc(vs) + rest =~= spec_u64_le(n) + (spec_u64s_enc(vs) + rest));
    lemma_take_u64_of_le(n, spec_u64s_enc(vs) + rest);
    lemma_take_u64s_enc(vs, rest);
}

/// Decoding the canonical encoding of any downstream message gives that
/// message back: the codec loses nothing in either direction.
pub proof fn lemma_downstream_round_trip(m: DownstreamMessage)
    ensures
        spec_decode_downstream(spec_encode_downstream(m)) == Some(m),
{
    match m {
        DownstreamMessage::Greeting { mode } => {
            let s = spec_encode_downstream(m);
            assert(s =~= seq![0u8] + seq![spec_mode_byte(mode)]);
            lemma_take_u8_cons(0u8, seq![spec_mode_byte(mode)]);
        },
        DownstreamMessage::Continue => {
            let s = spec_encode_downstream(m);
            assert(s =~= seq![1u8] + Seq::<u8>::empty());
            lemma_take_u8_cons(1u8, Seq::empty());
        },
        DownstreamMessage::Instant(i) => {
            let s = spec_encode_downstream(m);
            assert(s =~= seq![2u8] + spec_u64_le(i.0));
            lemma_take_u8_cons(2u8, spec_u64_le(i.0));
            lemma_take_u64_of_le(i.0, Seq::empty());
            assert(spec_u64_le(i.0) + Seq::<u8>::empty() =~= spec_u64_le(i.0));
        },
    }
}

/// Decoding the canonical encoding of any upstream message within the
/// machine's size bounds gives that message back.
pub proof fn lemma_upstream_round_trip(m: UpstreamMessageView)
    requires
        spec_upstream_wf(m),
    ensures
        spec_decode_upstream(spec_encode_upstream(m)) == Some(m),
{
    let s = spec_encode_upstream(m);
    match m {
        UpstreamMessageView::BeginningBenchmarkGroup { group } => {
            assert(s =~= seq![0u8] + spec_bytes_enc(group));
            lemma_take_u8_cons(0u8, spec_bytes_enc(group));
            assert(spec_bytes_enc(group) =~= spec_bytes_enc(group) + Seq::<u8>::empty());
            lemma_take_bytes_enc(group, Seq::empty());
        },
        UpstreamMessageView::FinishedBenchmarkGroup => {
            assert(s =~= seq![1u8] + Seq::<u8>::empty());
            lemma_take_u8_cons(1u8, Seq::empty());
        },
        UpstreamMessageView::BeginningBenchmark { id } => {
            assert(s =~= seq![2u8] + spec_id_enc(id));
            lemma_take_u8_cons(2u8, spec_id_enc(id));
            assert(spec_id_enc(id) =~= spec_id_enc(id) + Seq::<u8>::empty());
            lemma_take_id_enc(id, Seq::empty());
        },
        UpstreamMessageView::SkippingBenchmark { id } => {
            assert(s =~= seq![3u8] + spec_id_enc(id));
            lemma_take_u8_cons(3u8, spec_id_enc(id));
            assert(spec_id_enc(id) =~= spec_id_enc(id) + Seq::<u8>::empty());
            lemma_take_id_enc(id, Seq::empty());
        },
        UpstreamMessageView::Warmup { warm_up_goal_duration } => {
            let n = warm_up_goal_duration.0;
            assert(s =~= seq![4u8] + spec_u64_le(n));
            lemma_take_u8_cons(4u8, spec_u64_le(n));
            assert(spec_u64_le(n) =~= spec_u64_le(n) + Seq::<u8>::empty());
            lemma_take_u64_of_le(n, Seq::empty());
        },
        UpstreamMessageView::MeasurementStart {
            warm_up_iter_count,
            warm_up_duration,
            num_samples,
            num_iters,
        } => {
            let a = spec_u64_le(warm_up_iter_count);
            let b = spec_u64_le(warm_up_duration.0);
            let c = spec_u64_le(num_samples as u64);
            let d = spec_u64_le(num_iters);
            assert(s =~= seq![5u8] + (a + (b + (c + (d + Seq::<u8>::empty())))));
            lemma_take_u8_cons(5u8, a + (b + (c + (d + Seq::<u8>::empty()))));
            lemma_take_u64_of_le(warm_up_iter_count, b + (c + (d + Seq::<u8>::empty())));
            lemma_take_u64_of_le(warm_up_duration.0, c + (d + Seq::<u8>::empty()));
            lemma_take_u64_of_le(num_samples as u64, d + Seq::<u8>::empty());
            lemma_take_u64_of_le(num_iters, Seq::empty());
        },
        UpstreamMessageView::MeasurementComplete {
            num_iters_per_sample,
            values,
            benchmark_config,
        } => {
            let a = spec_u64_le(num_iters_per_sample);
            let b = spec_values_enc(values);
            let c = spec_config_enc(benchmark_config);
            assert(s =~= seq![6u8] + (a + (b + (c + Seq::<u8>::empty()))));
            lemma_take_u8_cons(6u8, a + (b + (c + Seq::<u8>::empty())));
            lemma_take_u64_of_le(num_iters_per_sample, b + (c + Seq::<u8>::empty()));
            lemma_take_values_enc(values, c + Seq::<u8>::empty());
            assert(c + Seq::<u8>::empty() =~= c);
            lemma_take_config_enc(benchmark_config, Seq::empty());
        },
        UpstreamMessageView::End => {
            assert(s =~= seq![7u8] + Seq::<u8>::empty());
            lemma_take_u8_cons(7u8, Seq::empty());
        },
        UpstreamMessageView::GetInstant => {
            assert(s =~= seq![8u8] + Seq::<u8>::empty());
            lemma_take_u8_cons(8u8, Seq::empty());
        },
    }
}

} // verus!

//! Framing and codec behavior, seen from outside the library.

use farcri::codec::{decode_downstream, decode_upstream, encode_downstream, encode_upstream};
use farcri::error::LinkError;
use farcri::link::FrameBuffer;
use farcri::protocol::{
    BenchmarkConfig, DownstreamMessage, Mode, RawBenchmarkId, Throughput, UpstreamMessage,
};
use farcri::slip::{frame_payload, unescape_body, FRAME_END, FRAME_ESC};
use farcri::time::{Duration, Instant};

#[test]
fn frame_round_trip_with_reserved_bytes() {
    let payload: Vec<u8> = vec![1, FRAME_END, 2, FRAME_ESC, 0xdc, 0xdd, FRAME_END];
    let frame = frame_payload(&payload);
    // Exactly one unescaped end-of-frame byte, at the end.
    assert_eq!(frame[frame.len() - 1], FRAME_END);
    assert!(frame[..frame.len() - 1].iter().all(|&b| b != FRAME_END));
    let body: Vec<u8> = frame[..frame.len() - 1].to_vec();
    assert_eq!(unescape_body(&body).unwrap(), payload);
}

#[test]
fn frame_round_trip_plain_payload() {
    let payload: Vec<u8> = vec![10, 20, 30];
    let frame = frame_payload(&payload);
    assert_eq!(frame, vec![10, 20, 30, FRAME_END]);
    let body: Vec<u8> = frame[..frame.len() - 1].to_vec();
    assert_eq!(unescape_body(&body).unwrap(), payload);
}

#[test]
fn unescape_rejects_unknown_escape() {
    let body: Vec<u8> = vec![FRAME_ESC, 0x00];
    assert_eq!(unescape_body(&body), Err(LinkError::BadEscape));
}

#[test]
fn unescape_rejects_trailing_lone_escape() {
    // An escape byte directly followed by the frame delimiter is fatal,
    // not a literal.
    let body: Vec<u8> = vec![1, 2, FRAME_ESC];
    assert_eq!(unescape_body(&body), Err(LinkError::BadEscape));
}

#[test]
fn frame_buffer_finds_frames_across_chunks() {
    let mut fb = FrameBuffer::new(1024);
    let payload: Vec<u8> = vec![5, 6, 7];
    let frame = frame_payload(&payload);
    fb.feed(&frame[..2].to_vec());
    assert_eq!(fb.next_frame().unwrap(), None);
    fb.feed(&frame[2..].to_vec());
    assert_eq!(fb.next_frame().unwrap(), Some(payload));
}

#[test]
fn frame_buffer_skips_keep_alives() {
    let mut fb = FrameBuffer::new(1024);
    let mut bytes: Vec<u8> = vec![FRAME_END, FRAME_END];
    bytes.extend_from_slice(&frame_payload(&vec![9]));
    fb.feed(&bytes);
    assert_eq!(fb.next_frame().unwrap(), Some(vec![9]));
}

#[test]
fn frame_buffer_rejects_oversized_packet() {
    let mut fb = FrameBuffer::new(8);
    fb.feed(&vec![1, 2, 3, 4, 5, 6, 7, 8, 9]);
    assert_eq!(fb.next_frame(), Err(LinkError::RecvPacketTooLarge));
}

#[test]
fn downstream_codec_round_trips() {
    for m in [
        DownstreamMessage::Greeting { mode: Mode::Benchmark },
        DownstreamMessage::Greeting { mode: Mode::Test },
        DownstreamMessage::Continue,
        DownstreamMessage::Instant(Instant::from_nanos(12345678901234567)),
    ] {
        let bytes = encode_downstream(&m);
        assert_eq!(decode_downstream(&bytes).unwrap(), m);
    }
}

#[test]
fn upstream_codec_round_trips_benchmark_id() {
    let m = UpstreamMessage::BeginningBenchmark {
        id: RawBenchmarkId {
            group_id: b"group".to_vec(),
            function_id: Some(b"func".to_vec()),
            value_str: None,
            throughput: Some(Throughput::Bytes(4096)),
        },
    };
    let bytes = encode_upstream(&m);
    match decode_upstream(&bytes).unwrap() {
        UpstreamMessage::BeginningBenchmark { id } => {
            assert_eq!(id.group_id, b"group".to_vec());
            assert_eq!(id.function_id, Some(b"func".to_vec()));
            assert_eq!(id.value_str, None);
            assert_eq!(id.throughput, Some(Throughput::Bytes(4096)));
        }
        other => panic!("wrong message: {:?}", other),
    }
}

#[test]
fn upstream_codec_round_trips_measurement() {
    let m = UpstreamMessage::MeasurementComplete {
        num_iters_per_sample: 17,
        values: vec![3, 1, 4, 1, 5, 9, 2, 6],
        benchmark_config: BenchmarkConfig {
            measurement_time: Duration::from_nanos(5_000_000_000),
            nresamples: 100_000,
            sample_size: 50,
            warm_up_time: Duration::from_nanos(3_000_000_000),
        },
    };
    let bytes = encode_upstream(&m);
    match decode_upstream(&bytes).unwrap() {
        UpstreamMessage::MeasurementComplete { num_iters_per_sample, values, benchmark_config } => {
            assert_eq!(num_iters_per_sample, 17);
            assert_eq!(values, vec![3, 1, 4, 1, 5, 9, 2, 6]);
            assert_eq!(benchmark_config.sample_size, 50);
            assert_eq!(benchmark_config.warm_up_time.as_nanos(), 3_000_000_000);
        }
        other => panic!("wrong message: {:?}", other),
    }
}

#[test]
fn decoder_rejects_unknown_tag_and_truncation() {
    assert_eq!(decode_upstream(&vec![99]), Err(LinkError::MalformedMessage));
    assert_eq!(decode_downstream(&vec![]), Err(LinkError::MalformedMessage));
    // A truncated Instant payload.
    assert_eq!(
        decode_downstream(&vec![2, 1, 2, 3]),
        Err(LinkError::MalformedMessage)
    );
    // Trailing garbage after a well-formed message.
    let mut bytes = encode_downstream(&DownstreamMessage::Continue);
    bytes.push(0);
    assert_eq!(decode_downstream(&bytes), Err(LinkError::MalformedMessage));
}

//! The host side of a session: how the coordinator answers the target,
//! and an in-process proxy that drives the whole engine without hardware.
//!
//! The coordinator's decisions are one pure function, [`host_reaction`]:
//! answer a timing query with the wall clock, release the target with
//! `Continue` after each completed measurement and each finished group,
//! and stop on the end-of-session message. An asynchronous host loop
//! performs the reads and writes around it; [`SimProxy`] performs them
//! synchronously in memory, which lets two simulated peers run a whole
//! session inside one process.

use vstd::prelude::*;

use crate::codec::{decode_upstream, encode_downstream};
use crate::handshake::{InitEvent, Initiator, HANDSHAKE_NONCE_LEN};
use crate::link::{lemma_extract_shrinks, FrameBuffer, LinkIo};
use crate::protocol::{DownstreamMessage, Mode, UpstreamMessage};
use crate::slip::frame_payload;
use crate::time::Instant;
use crate::utils::append_vec;

verus! {

/// What the coordinator replies to one upstream message, given its wall
/// clock, and whether the session is over.
pub open spec fn spec_host_reaction(m: crate::protocol::UpstreamMessageView, now: Instant) -> (
    Option<DownstreamMessage>,
    bool,
) {
    match m {
        crate::protocol::UpstreamMessageView::GetInstant => (
            Some(DownstreamMessage::Instant(now)),
            false,
        ),
        crate::protocol::UpstreamMessageView::MeasurementComplete { .. } => (
            Some(DownstreamMessage::Continue),
            false,
        ),
        crate::protocol::UpstreamMessageView::FinishedBenchmarkGroup => (
            Some(DownstreamMessage::Continue),
            false,
        ),
        crate::protocol::UpstreamMessageView::End => (None, true),
        _ => (None, false),
    }
}

/// The coordinator's one decision: the reply owed to an upstream message.
/// Timing queries get the wall clock; a completed measurement and a
/// finished group get `Continue`, the protocol's only flow control; the
/// end message closes the session; everything else is only forwarded to
/// the results consumer.
pub fn host_reaction(m: &UpstreamMessage, now: Instant) -> (r: (Option<DownstreamMessage>, bool))
    ensures
        r == spec_host_reaction(m@, now),
{
    match m {
        UpstreamMessage::GetInstant => (Some(DownstreamMessage::Instant(now)), false),
        UpstreamMessage::MeasurementComplete { .. } => (Some(DownstreamMessage::Continue), false),
        UpstreamMessage::FinishedBenchmarkGroup => (Some(DownstreamMessage::Continue), false),
        UpstreamMessage::End => (None, true),
        _ => (None, false),
    }
}

/// An in-process proxy: a [`LinkIo`] whose other end is the coordinator
/// itself. It plays the handshake initiator — transmitting a configured
/// number of duplicate sync packets up front, as a real initiator's retry
/// loop would — then answers the engine's messages by [`host_reaction`]
/// over a synthetic wall clock, and records every upstream message it
/// decodes.
#[derive(Debug)]
pub struct SimProxy {
    mode: Mode,
    init: Initiator,
    fbuf: FrameBuffer,
    pending: Vec<u8>,
    wall: u64,
    wall_step: u64,
    counter: u64,
    counter_step: u64,
    log: Vec<UpstreamMessage>,
    done: bool,
    failed: bool,
}

impl SimProxy {
    /// A proxy that will greet with `mode`, transmit `sync_copies` copies
    /// of the sync packet, answer timing queries from a wall clock that
    /// advances `wall_step` nanoseconds per query, and advance its cycle
    /// counter by `counter_step` per reading.
    pub fn new(
        mode: Mode,
        nonce: Vec<u8>,
        sync_copies: usize,
        wall_step: u64,
        counter_step: u64,
    ) -> (r: SimProxy)
        requires
            nonce@.len() == HANDSHAKE_NONCE_LEN,
            1 <= sync_copies <= 8,
    {
        let init = Initiator::new(nonce);
        let mut pending: Vec<u8> = Vec::new();
        let mut i: usize = 0;
        while i < sync_copies
            decreases sync_copies - i,
        {
            let packet = init.sync_packet();
            append_vec(&mut pending, &packet);
            i = i + 1;
        }
        SimProxy {
            mode,
            init,
            fbuf: FrameBuffer::new(4096),
            pending,
            wall: 0,
            wall_step,
            counter: 0,
            counter_step,
            log: Vec::new(),
            done: false,
            failed: false,
        }
    }

    /// Every upstream message decoded so far, in arrival order.
    pub fn messages(&self) -> &Vec<UpstreamMessage> {
        &self.log
    }

    /// Whether the end-of-session message arrived.
    pub fn is_done(&self) -> bool {
        self.done
    }

    /// Whether the byte stream broke the protocol.
    pub fn is_failed(&self) -> bool {
        self.failed
    }

    /// Queues one downstream message for the target to read.
    fn queue_reply(&mut self, m: &DownstreamMessage)
        ensures
            final(self).fbuf == old(self).fbuf,
            final(self).init == old(self).init,
    {
        let payload = encode_downstream(m);
        let frame = frame_payload(&payload);
        append_vec(&mut self.pending, &frame);
    }

    /// Decodes and answers every complete frame buffered so far.
    fn drain_frames(&mut self) {
        loop
            decreases self.fbuf@.buf.len(),
        {
            proof {
                lemma_extract_shrinks(self.fbuf@.buf);
            }
            match self.fbuf.next_frame() {
                Ok(Some(payload)) => {
                    match decode_upstream(&payload) {
                        Ok(msg) => {
                            let now = Instant::from_nanos(self.wall);
                            let (reply, done) = host_reaction(&msg, now);
                            match &msg {
                                UpstreamMessage::GetInstant => {
                                    self.wall = self.wall.wrapping_add(self.wall_step);
                                },
                                _ => {},
                            }
                            if done {
                                self.done = true;
                            }
                            self.log.push(msg);
                            match reply {
                                Some(r) => {
                                    self.queue_reply(&r);
                                },
                                None => {},
                            }
                        },
                        Err(_) => {
                            self.failed = true;
                            return ;
                        },
                    }
                },
                Ok(None) => {
                    return ;
                },
                Err(_) => {
                    self.failed = true;
                    return ;
                },
            }
        }
    }
}

impl LinkIo for SimProxy {
    fn write(&mut self, data: &Vec<u8>) {
        if self.failed {
            return ;
        }
        if !self.init.is_done() {
            self.init.feed(data);
            loop
                decreases self.init@.buf.len(),
            {
                if self.init.is_done() {
                    break ;
                }
                proof {
                    crate::utils::lemma_find_occurs(
                        self.init@.buf,
                        crate::handshake::spec_sync_magic() + self.init@.nonce,
                    );
                }
                match self.init.process() {
                    Ok(InitEvent::SyncConfirmed) => {
                        let end = crate::handshake::end_magic();
                        append_vec(&mut self.pending, &end);
                    },
                    Ok(InitEvent::Progress) => {},
                    Ok(InitEvent::NeedData) => {
                        return ;
                    },
                    Ok(InitEvent::Complete) => {
                        let rest = self.init.take_rest();
                        self.fbuf.feed(&rest);
                        let greeting = DownstreamMessage::Greeting { mode: self.mode };
                        self.queue_reply(&greeting);
                        break ;
                    },
                    Err(_) => {
                        self.failed = true;
                        return ;
                    },
                }
            }
        } else {
            self.fbuf.feed(data);
        }
        self.drain_frames();
    }

    fn read_some(&mut self, max: usize) -> Vec<u8> {
        let n = if max < self.pending.len() {
            max
        } else {
            self.pending.len()
        };
        let mut out: Vec<u8> = Vec::new();
        let mut i: usize = 0;
        while i < n
            invariant
                n <= self.pending@.len(),
                i <= n,
            decreases n - i,
        {
            out.push(self.pending[i]);
            i = i + 1;
        }
        self.pending = crate::utils::vec_skip(&self.pending, n);
        out
    }

    fn counter(&mut self) -> u64 {
        let c = self.counter;
        self.counter = self.counter.wrapping_add(self.counter_step);
        c
    }
}

} // verus!

//! The handshake that aligns two peers on frame boundaries.
//!
//! Two fixed out-of-band markers drive it: a sync marker followed by a
//! fresh random nonce, and a distinct end marker. The initiator transmits
//! `sync ++ nonce` repeatedly until its own exact sequence is echoed back,
//! then sends the end marker once while draining stale echoes, and is done
//! when the end marker comes back. The responder scans for the sync
//! marker, echoes every full `sync ++ nonce` it sees, and exits when the
//! end marker arrives, replying with the end marker.
//!
//! Both sides are pure state machines over bytes; the transport reads and
//! writes around them belong to the caller.

use vstd::prelude::*;

use crate::error::LinkError;
use crate::utils::{slice_find, spec_find, vec_skip};

verus! {

/// Length of the random nonce that follows the sync marker.
pub const HANDSHAKE_NONCE_LEN: usize = 16;

/// Length of the sync marker.
pub const SYNC_MAGIC_LEN: usize = 14;

/// Length of the end marker.
pub const END_MAGIC_LEN: usize = 10;

/// Length of a full sync packet: the sync marker plus the nonce.
pub const SYNC_PACKET_LEN: usize = 30;

/// The sync marker: a reserved byte, then a fixed 13-byte ASCII tag.
pub open spec fn spec_sync_magic() -> Seq<u8> {
    seq![
        0x01u8,
        0x66,
        0x6c,
        0x75,
        0x74,
        0x74,
        0x65,
        0x72,
        0x73,
        0x68,
        0x79,
        0x79,
        0x61,
        0x79,
    ]
}

/// The end marker: a different reserved byte, then a fixed 9-byte ASCII
/// tag.
pub open spec fn spec_end_magic() -> Seq<u8> {
    seq![0x02u8, 0x61, 0x70, 0x70, 0x6c, 0x65, 0x6a, 0x61, 0x63, 0x6b]
}

/// Builds the sync marker.
pub fn sync_magic() -> (r: Vec<u8>)
    ensures
        r@ == spec_sync_magic(),
{
    let mut v: Vec<u8> = Vec::new();
    v.push(0x01);
    v.push(0x66);
    v.push(0x6c);
    v.push(0x75);
    v.push(0x74);
    v.push(0x74);
    v.push(0x65);
    v.push(0x72);
    v.push(0x73);
    v.push(0x68);
    v.push(0x79);
    v.push(0x79);
    v.push(0x61);
    v.push(0x79);
    proof {
        assert(v@ =~= spec_sync_magic());
    }
    v
}

/// Builds the end marker.
pub fn end_magic() -> (r: Vec<u8>)
    ensures
        r@ == spec_end_magic(),
{
    let mut v: Vec<u8> = Vec::new();
    v.push(0x02);
    v.push(0x61);
    v.push(0x70);
    v.push(0x70);
    v.push(0x6c);
    v.push(0x65);
    v.push(0x6a);
    v.push(0x61);
    v.push(0x63);
    v.push(0x6b);
    proof {
        assert(v@ =~= spec_end_magic());
    }
    v
}

// ---------------------------------------------------------------------
// Responder (target side)

/// Where the responder stands in its byte stream.
#[derive(Debug, Copy, Clone, PartialEq, Eq, Structural)]
pub enum RespPhase {
    /// Scanning for the first byte of a marker.
    Seek,
    /// Matching the remainder of the sync marker.
    MatchSync,
    /// Collecting the nonce that follows a full sync marker.
    ReadNonce,
    /// Matching the remainder of the end marker.
    MatchEnd,
    /// The handshake is complete.
    Done,
    /// A fatal protocol error was seen; the stream cannot be trusted.
    Failed,
}

/// The responder's handshake state machine. Feed it inbound bytes one at
/// a time; whatever it returns is to be written back to the peer.
#[derive(Debug)]
pub struct Responder {
    phase: RespPhase,
    count: usize,
    got_handshake: bool,
    nonce: Vec<u8>,
    sync: Vec<u8>,
    end: Vec<u8>,
}

/// The mathematical state of a [`Responder`].
pub struct RespView {
    pub phase: RespPhase,
    pub count: int,
    pub got_handshake: bool,
    pub nonce: Seq<u8>,
}

impl View for Responder {
    type V = RespView;

    closed spec fn view(&self) -> RespView {
        RespView {
            phase: self.phase,
            count: self.count as int,
            got_handshake: self.got_handshake,
            nonce: self.nonce@,
        }
    }
}

/// One transition of the responder: the state after the byte, the bytes
/// it replies with, and whether the byte was a fatal protocol error.
pub struct RespStep {
    pub state: RespView,
    pub reply: Option<Seq<u8>>,
    pub fail: bool,
}

/// The responder's fresh state.
pub open spec fn spec_responder_init() -> RespView {
    RespView { phase: RespPhase::Seek, count: 0, got_handshake: false, nonce: Seq::empty() }
}

/// The responder's transition function, one byte at a time.
pub open spec fn spec_responder_step(v: RespView, b: u8) -> RespStep {
    match v.phase {
        RespPhase::Seek => {
            if b == spec_sync_magic()[0] {
                RespStep {
                    state: RespView { phase: RespPhase::MatchSync, count: 1, ..v },
                    reply: None,
                    fail: false,
                }
            } else if v.got_handshake {
                if b == spec_end_magic()[0] {
                    RespStep {
                        state: RespView { phase: RespPhase::MatchEnd, count: 1, ..v },
                        reply: None,
                        fail: false,
                    }
                } else {
                    RespStep {
                        state: RespView { phase: RespPhase::Failed, ..v },
                        reply: None,
                        fail: true,
                    }
                }
            } else {
                RespStep { state: v, reply: None, fail: false }
            }
        },
        RespPhase::MatchSync => {
            if b == spec_sync_magic()[v.count] {
                if v.count + 1 == SYNC_MAGIC_LEN {
                    RespStep {
                        state: RespView {
                            phase: RespPhase::ReadNonce,
                            count: 0,
                            nonce: Seq::empty(),
                            ..v
                        },
                        reply: None,
                        fail: false,
                    }
                } else {
                    RespStep {
                        state: RespView { phase: RespPhase::MatchSync, count: v.count + 1, ..v },
                        reply: None,
                        fail: false,
                    }
                }
            } else {
                // An invalid packet: resume scanning with the next byte.
                RespStep {
                    state: RespView { phase: RespPhase::Seek, count: 0, ..v },
                    reply: None,
                    fail: false,
                }
            }
        },
        RespPhase::ReadNonce => {
            if v.count + 1 == HANDSHAKE_NONCE_LEN {
                RespStep {
                    state: RespView {
                        phase: RespPhase::Seek,
                        count: 0,
                        got_handshake: true,
                        nonce: v.nonce.push(b),
                    },
                    reply: Some(spec_sync_magic() + v.nonce.push(b)),
                    fail: false,
                }
            } else {
                RespStep {
                    state: RespView {
                        phase: RespPhase::ReadNonce,
                        count: v.count + 1,
                        nonce: v.nonce.push(b),
                        ..v
                    },
                    reply: None,
                    fail: false,
                }
            }
        },
        RespPhase::MatchEnd => {
            if b == spec_end_magic()[v.count] {
                if v.count + 1 == END_MAGIC_LEN {
                    RespStep {
                        state: RespView { phase: RespPhase::Done, count: 0, ..v },
                        reply: Some(spec_end_magic()),
                        fail: false,
                    }
                } else {
                    RespStep {
                        state: RespView { phase: RespPhase::MatchEnd, count: v.count + 1, ..v },
                        reply: None,
                        fail: false,
                    }
                }
            } else {
                RespStep {
                    state: RespView { phase: RespPhase::Failed, ..v },
                    reply: None,
                    fail: true,
                }
            }
        },
        RespPhase::Done => RespStep { state: v, reply: None, fail: false },
        RespPhase::Failed => RespStep { state: v, reply: None, fail: false },
    }
}

impl Responder {
    /// The state machine's internal consistency.
    pub closed spec fn inv(&self) -> bool {
        &&& self.sync@ == spec_sync_magic()
        &&& self.end@ == spec_end_magic()
        &&& (self@.phase is MatchSync ==> 1 <= self@.count < SYNC_MAGIC_LEN)
        &&& (self@.phase is ReadNonce ==> self@.count == self@.nonce.len() && self@.count
            < HANDSHAKE_NONCE_LEN)
        &&& (self@.phase is MatchEnd ==> 1 <= self@.count < END_MAGIC_LEN)
    }

    /// A fresh responder, before any byte has been seen.
    pub fn new() -> (r: Self)
        ensures
            r.inv(),
            r@ == spec_responder_init(),
    {
        let r = Responder {
            phase: RespPhase::Seek,
            count: 0,
            got_handshake: false,
            nonce: Vec::new(),
            sync: sync_magic(),
            end: end_magic(),
        };
        proof {
            assert(r@ =~= spec_responder_init());
        }
        r
    }

    /// Whether the handshake has completed.
    pub fn is_done(&self) -> (r: bool)
        ensures
            r == (self@.phase is Done),
    {
        match self.phase {
            RespPhase::Done => true,
            _ => false,
        }
    }

    /// Consumes one inbound byte. `Ok(Some(reply))` asks the caller to
    /// write `reply` to the peer before feeding the next byte.
    pub fn step(&mut self, b: u8) -> (r: Result<Option<Vec<u8>>, LinkError>)
        requires
            old(self).inv(),
        ensures
            final(self).inv(),
            ({
                let st = spec_responder_step(old(self)@, b);
                match r {
                    Ok(rep) => {
                        &&& !st.fail
                        &&& final(self)@ == st.state
                        &&& match rep {
                            Some(v) => st.reply == Some(v@),
                            None => st.reply is None,
                        }
                    },
                    Err(e) => {
                        &&& st.fail
                        &&& final(self)@ == st.state
                        &&& e == LinkError::BadHandshake
                    },
                }
            }),
    {
        match self.phase {
            RespPhase::Seek => {
                if b == self.sync[0] {
                    self.phase = RespPhase::MatchSync;
                    self.count = 1;
                    Ok(None)
                } else if self.got_handshake {
                    if b == self.end[0] {
                        self.phase = RespPhase::MatchEnd;
                        self.count = 1;
                        Ok(None)
                    } else {
                        self.phase = RespPhase::Failed;
                        Err(LinkError::BadHandshake)
                    }
                } else {
                    Ok(None)
                }
            },
            RespPhase::MatchSync => {
                if b == self.sync[self.count] {
                    if self.count + 1 == SYNC_MAGIC_LEN {
                        self.phase = RespPhase::ReadNonce;
                        self.count = 0;
                        self.nonce = Vec::new();
                        proof {
                            assert(self@.nonce =~= Seq::<u8>::empty());
                        }
                        Ok(None)
                    } else {
                        self.count = self.count + 1;
                        Ok(None)
                    }
                } else {
                    self.phase = RespPhase::Seek;
                    self.count = 0;
                    Ok(None)
                }
            },
            RespPhase::ReadNonce => {
                self.nonce.push(b);
                if self.count + 1 == HANDSHAKE_NONCE_LEN {
                    self.phase = RespPhase::Seek;
                    self.count = 0;
                    self.got_handshake = true;
                    let mut reply = sync_magic();
                    crate::utils::append_vec(&mut reply, &self.nonce);
                    Ok(Some(reply))
                } else {
                    self.count = self.count + 1;
                    Ok(None)
                }
            },
            RespPhase::MatchEnd => {
                if b == self.end[self.count] {
                    if self.count + 1 == END_MAGIC_LEN {
                        self.phase = RespPhase::Done;
                        self.count = 0;
                        Ok(Some(end_magic()))
                    } else {
                        self.count = self.count + 1;
                        Ok(None)
                    }
                } else {
                    self.phase = RespPhase::Failed;
                    Err(LinkError::BadHandshake)
                }
            },
            RespPhase::Done => Ok(None),
            RespPhase::Failed => Ok(None),
        }
    }
}

// ---------------------------------------------------------------------
// Initiator (proxy side)

/// Where the initiator stands.
#[derive(Debug, Copy, Clone, PartialEq, Eq, Structural)]
pub enum InitStage {
    /// Waiting for its own `sync ++ nonce` to be echoed back.
    Search,
    /// Draining duplicate echoes until the end marker comes back.
    Drain,
    /// The handshake is complete.
    Done,
    /// A fatal protocol error was seen; the stream cannot be trusted.
    Failed,
}

/// What one [`Initiator::process`] call found.
#[derive(Debug, Copy, Clone, PartialEq, Eq, Structural)]
pub enum InitEvent {
    /// Nothing can be decided yet: feed more inbound bytes.
    NeedData,
    /// A duplicate echo was discarded; call `process` again.
    Progress,
    /// The peer echoed the exact sync packet: send the end marker once,
    /// then keep processing.
    SyncConfirmed,
    /// The end marker came back; the stream is aligned.
    Complete,
}

/// The initiator's handshake state machine. Feed it inbound bytes with
/// [`Initiator::feed`]; drive it with [`Initiator::process`]; transmit
/// [`Initiator::sync_packet`] at the retry interval until it reports
/// [`InitEvent::SyncConfirmed`].
#[derive(Debug)]
pub struct Initiator {
    stage: InitStage,
    nonce: Vec<u8>,
    buf: Vec<u8>,
    packet: Vec<u8>,
    end: Vec<u8>,
}

/// The mathematical state of an [`Initiator`].
pub struct InitView {
    pub stage: InitStage,
    pub nonce: Seq<u8>,
    pub buf: Seq<u8>,
}

impl View for Initiator {
    type V = InitView;

    closed spec fn view(&self) -> InitView {
        InitView { stage: self.stage, nonce: self.nonce@, buf: self.buf@ }
    }
}

/// One transition of the initiator: the state after the call, what it
/// found, and whether the stream held a fatal protocol error.
pub struct InitStep {
    pub state: InitView,
    pub event: InitEvent,
    pub fail: bool,
}

/// The initiator's transition function, one `process` call at a time.
pub open spec fn spec_initiator_step(v: InitView) -> InitStep {
    match v.stage {
        InitStage::Search => {
            match spec_find(v.buf, spec_sync_magic() + v.nonce) {
                Some(i) => InitStep {
                    state: InitView {
                        stage: InitStage::Drain,
                        buf: v.buf.skip(i + SYNC_PACKET_LEN),
                        ..v
                    },
                    event: InitEvent::SyncConfirmed,
                    fail: false,
                },
                None => InitStep { state: v, event: InitEvent::NeedData, fail: false },
            }
        },
        InitStage::Drain => {
            if v.buf.len() == 0 {
                InitStep { state: v, event: InitEvent::NeedData, fail: false }
            } else if v.buf[0] == spec_sync_magic()[0] {
                if v.buf.len() >= SYNC_PACKET_LEN {
                    InitStep {
                        state: InitView { buf: v.buf.skip(SYNC_PACKET_LEN as int), ..v },
                        event: InitEvent::Progress,
                        fail: false,
                    }
                } else {
                    InitStep { state: v, event: InitEvent::NeedData, fail: false }
                }
            } else if v.buf[0] == spec_end_magic()[0] {
                if v.buf.len() >= END_MAGIC_LEN {
                    InitStep {
                        state: InitView {
                            stage: InitStage::Done,
                            buf: v.buf.skip(END_MAGIC_LEN as int),
                            ..v
                        },
                        event: InitEvent::Complete,
                        fail: false,
                    }
                } else {
                    InitStep { state: v, event: InitEvent::NeedData, fail: false }
                }
            } else {
                InitStep {
                    state: InitView { stage: InitStage::Failed, ..v },
                    event: InitEvent::NeedData,
                    fail: true,
                }
            }
        },
        InitStage::Done => InitStep { state: v, event: InitEvent::Complete, fail: false },
        InitStage::Failed => InitStep { state: v, event: InitEvent::NeedData, fail: false },
    }
}

impl Initiator {
    /// The state machine's internal consistency.
    #[verifier::type_invariant]
    spec fn well_formed(&self) -> bool {
        &&& self.nonce@.len() == HANDSHAKE_NONCE_LEN
        &&& self.packet@ == spec_sync_magic() + self.nonce@
        &&& self.end@ == spec_end_magic()
    }

    /// A fresh initiator for one connection attempt, with the nonce that
    /// distinguishes this attempt from stale data of earlier ones.
    pub fn new(nonce: Vec<u8>) -> (r: Self)
        requires
            nonce@.len() == HANDSHAKE_NONCE_LEN,
        ensures
            r@.stage is Search,
            r@.nonce == nonce@,
            r@.buf == Seq::<u8>::empty(),
    {
        let mut packet = sync_magic();
        crate::utils::append_vec(&mut packet, &nonce);
        Initiator {
            stage: InitStage::Search,
            nonce,
            buf: Vec::new(),
            packet,
            end: end_magic(),
        }
    }

    /// The packet to transmit at the retry interval during the search
    /// stage: the sync marker followed by this attempt's nonce.
    pub fn sync_packet(&self) -> (r: Vec<u8>)
        ensures
            r@ == spec_sync_magic() + self@.nonce,
    {
        proof {
            use_type_invariant(&*self);
        }
        vec_skip(&self.packet, 0)
    }

    /// Whether the handshake has completed.
    pub fn is_done(&self) -> (r: bool)
        ensures
            r == (self@.stage is Done),
    {
        match self.stage {
            InitStage::Done => true,
            _ => false,
        }
    }

    /// Hands in bytes read from the transport.
    pub fn feed(&mut self, bytes: &Vec<u8>)
        ensures
            final(self)@.stage == old(self)@.stage,
            final(self)@.nonce == old(self)@.nonce,
            final(self)@.buf == old(self)@.buf + bytes@,
    {
        proof {
            use_type_invariant(&*self);
        }
        let mut buf: Vec<u8> = Vec::new();
        core::mem::swap(&mut buf, &mut self.buf);
        crate::utils::append_vec(&mut buf, bytes);
        self.buf = buf;
    }

    /// Bytes that arrived after the handshake: the first framed bytes of
    /// the session. Empties the internal buffer.
    pub fn take_rest(&mut self) -> (r: Vec<u8>)
        ensures
            final(self)@.stage == old(self)@.stage,
            final(self)@.nonce == old(self)@.nonce,
            final(self)@.buf == Seq::<u8>::empty(),
            r@ == old(self)@.buf,
    {
        proof {
            use_type_invariant(&*self);
        }
        let out = vec_skip(&self.buf, 0);
        self.buf = Vec::new();
        proof {
            assert(out@ =~= old(self)@.buf);
        }
        out
    }

    /// Advances the handshake as far as the buffered bytes decide.
    pub fn process(&mut self) -> (r: Result<InitEvent, LinkError>)
        ensures
            old(self)@.nonce.len() == HANDSHAKE_NONCE_LEN,
            ({
                let st = spec_initiator_step(old(self)@);
                match r {
                    Ok(ev) => !st.fail && final(self)@ == st.state && ev == st.event,
                    Err(e) => st.fail && final(self)@ == st.state && e == LinkError::BadHandshake,
                }
            }),
    {
        proof {
            use_type_invariant(&*self);
        }
        match self.stage {
            InitStage::Search => {
                match slice_find(&self.buf, &self.packet) {
                    Some(i) => {
                        let blen = self.buf.len();
                        proof {
                            crate::utils::lemma_find_occurs(self.buf@, self.packet@);
                            assert(i + SYNC_PACKET_LEN <= blen);
                        }
                        self.buf = vec_skip(&self.buf, i + SYNC_PACKET_LEN);
                        self.stage = InitStage::Drain;
                        Ok(InitEvent::SyncConfirmed)
                    },
                    None => Ok(InitEvent::NeedData),
                }
            },
            InitStage::Drain => {
                if self.buf.len() == 0 {
                    Ok(InitEvent::NeedData)
                } else if self.buf[0] == self.packet[0] {
                    if self.buf.len() >= SYNC_PACKET_LEN {
                        self.buf = vec_skip(&self.buf, SYNC_PACKET_LEN);
                        Ok(InitEvent::Progress)
                    } else {
                        Ok(InitEvent::NeedData)
                    }
                } else if self.buf[0] == self.end[0] {
                    if self.buf.len() >= END_MAGIC_LEN {
                        self.buf = vec_skip(&self.buf, END_MAGIC_LEN);
                        self.stage = InitStage::Done;
                        Ok(InitEvent::Complete)
                    } else {
                        Ok(InitEvent::NeedData)
                    }
                } else {
                    self.stage = InitStage::Failed;
                    Err(LinkError::BadHandshake)
                }
            },
            InitStage::Done => Ok(InitEvent::Complete),
            InitStage::Failed => Ok(InitEvent::NeedData),
        }
    }
}

// ---------------------------------------------------------------------
// Convergence of the handshake

/// `k` copies of `p`, concatenated.
pub open spec fn spec_repeat(p: Seq<u8>, k: nat) -> Seq<u8>
    decreases k,
{
    if k == 0 {
        Seq::empty()
    } else {
        p + spec_repeat(p, (k - 1) as nat)
    }
}

/// `k` copies of `p`, as separate packets.
pub open spec fn spec_repeat_seq(p: Seq<u8>, k: nat) -> Seq<Seq<u8>>
    decreases k,
{
    if k == 0 {
        Seq::empty()
    } else {
        seq![p] + spec_repeat_seq(p, (k - 1) as nat)
    }
}

/// The responder fed a whole byte sequence: its final state, everything
/// it replied, and whether any byte was fatal.
pub struct RespRun {
    pub state: RespView,
    pub replies: Seq<Seq<u8>>,
    pub fail: bool,
}

/// Folds [`spec_responder_step`] over an input stream, stopping at the
/// first fatal byte.
pub open spec fn spec_responder_run(v: RespView, input: Seq<u8>) -> RespRun
    decreases input.len(),
{
    if input.len() == 0 {
        RespRun { state: v, replies: Seq::empty(), fail: false }
    } else {
        let st = spec_responder_step(v, input[0]);
        if st.fail {
            RespRun { state: st.state, replies: Seq::empty(), fail: true }
        } else {
            let rest = spec_responder_run(st.state, input.drop_first());
            RespRun {
                state: rest.state,
                replies: (match st.reply {
                    Some(x) => seq![x],
                    None => Seq::empty(),
                }) + rest.replies,
                fail: rest.fail,
            }
        }
    }
}

/// Runs compose over concatenated inputs.
pub proof fn lemma_responder_run_append(v: RespView, a: Seq<u8>, b: Seq<u8>)
    requires
        !spec_responder_run(v, a).fail,
    ensures
        spec_responder_run(v, a + b).state == spec_responder_run(
            spec_responder_run(v, a).state,
            b,
        ).state,
        spec_responder_run(v, a + b).replies == spec_responder_run(v, a).replies
            + spec_responder_run(spec_responder_run(v, a).state, b).replies,
        spec_responder_run(v, a + b).fail == spec_responder_run(
            spec_responder_run(v, a).state,
            b,
        ).fail,
    decreases a.len(),
{
    if a.len() == 0 {
        assert(a + b =~= b);
        assert(Seq::<Seq<u8>>::empty() + spec_responder_run(v, b).replies =~~= spec_responder_run(
            v,
            b,
        ).replies);
    } else {
        let st = spec_responder_step(v, a[0]);
        assert((a + b)[0] == a[0]);
        assert((a + b).drop_first() =~= a.drop_first() + b);
        lemma_responder_run_append(st.state, a.drop_first(), b);
        let first: Seq<Seq<u8>> = match st.reply {
            Some(x) => seq![x],
            None => Seq::empty(),
        };
        assert(first + (spec_responder_run(st.state, a.drop_first()).replies + spec_responder_run(
            spec_responder_run(v, a).state,
            b,
        ).replies) =~~= (first + spec_responder_run(st.state, a.drop_first()).replies)
            + spec_responder_run(spec_responder_run(v, a).state, b).replies);
    }
}

/// From nonce collection, the remaining nonce bytes complete the packet
/// and the responder echoes it.
proof fn lemma_responder_nonce(v: RespView, got: Seq<u8>, rest: Seq<u8>)
    requires
        v.phase is ReadNonce,
        v.count == got.len(),
        v.nonce == got,
        got.len() + rest.len() == HANDSHAKE_NONCE_LEN,
        rest.len() >= 1,
    ensures
        spec_responder_run(v, rest).state == (RespView {
            phase: RespPhase::Seek,
            count: 0,
            got_handshake: true,
            nonce: got + rest,
        }),
        spec_responder_run(v, rest).replies == seq![spec_sync_magic() + (got + rest)],
        !spec_responder_run(v, rest).fail,
    decreases rest.len(),
{
    let st = spec_responder_step(v, rest[0]);
    if rest.len() == 1 {
        assert(v.nonce.push(rest[0]) =~= got + rest);
        assert(spec_responder_run(st.state, rest.drop_first()).replies =~~= Seq::<Seq<u8>>::empty());
        assert(seq![spec_sync_magic() + (got + rest)] + Seq::<Seq<u8>>::empty() =~~= seq![
            spec_sync_magic() + (got + rest)
        ]);
    } else {
        assert(v.nonce.push(rest[0]) =~= got.push(rest[0]));
        lemma_responder_nonce(st.state, got.push(rest[0]), rest.drop_first());
        assert(got.push(rest[0]) + rest.drop_first() =~= got + rest);
        assert(Seq::<Seq<u8>>::empty() + seq![spec_sync_magic() + (got + rest)] =~~= seq![
            spec_sync_magic() + (got + rest)
        ]);
    }
}

/// From a partly matched sync marker, the rest of the packet completes
/// the match and the responder echoes it.
proof fn lemma_responder_match_sync(v: RespView, j: int, nonce: Seq<u8>)
    requires
        v.phase is MatchSync,
        v.count == j,
        1 <= j < SYNC_MAGIC_LEN,
        nonce.len() == HANDSHAKE_NONCE_LEN,
    ensures
        ({
            let input = spec_sync_magic().skip(j) + nonce;
            &&& spec_responder_run(v, input).state == (RespView {
                phase: RespPhase::Seek,
                count: 0,
                got_handshake: true,
                nonce,
            })
            &&& spec_responder_run(v, input).replies == seq![spec_sync_magic() + nonce]
            &&& !spec_responder_run(v, input).fail
        }),
    decreases SYNC_MAGIC_LEN - j,
{
    let input = spec_sync_magic().skip(j) + nonce;
    assert(input[0] == spec_sync_magic()[j]);
    let st = spec_responder_step(v, input[0]);
    if j + 1 == SYNC_MAGIC_LEN {
        assert(input.drop_first() =~= nonce);
        lemma_responder_nonce(st.state, Seq::empty(), nonce);
        assert(Seq::<u8>::empty() + nonce =~= nonce);
        assert(Seq::<Seq<u8>>::empty() + seq![spec_sync_magic() + nonce] =~~= seq![
            spec_sync_magic() + nonce
        ]);
    } else {
        lemma_responder_match_sync(st.state, j + 1, nonce);
        assert(input.drop_first() =~= spec_sync_magic().skip(j + 1) + nonce);
        assert(Seq::<Seq<u8>>::empty() + seq![spec_sync_magic() + nonce] =~~= seq![
            spec_sync_magic() + nonce
        ]);
    }
}

/// From scanning, one whole sync packet is matched and echoed.
proof fn lemma_responder_sync_packet(v: RespView, nonce: Seq<u8>)
    requires
        v.phase is Seek,
        nonce.len() == HANDSHAKE_NONCE_LEN,
    ensures
        ({
            let input = spec_sync_magic() + nonce;
            &&& spec_responder_run(v, input).state == (RespView {
                phase: RespPhase::Seek,
                count: 0,
                got_handshake: true,
                nonce,
            })
            &&& spec_responder_run(v, input).replies == seq![spec_sync_magic() + nonce]
            &&& !spec_responder_run(v, input).fail
        }),
{
    let input = spec_sync_magic() + nonce;
    assert(input[0] == spec_sync_magic()[0]);
    let st = spec_responder_step(v, input[0]);
    lemma_responder_match_sync(st.state, 1, nonce);
    assert(input.drop_first() =~= spec_sync_magic().skip(1) + nonce);
    assert(Seq::<Seq<u8>>::empty() + seq![spec_sync_magic() + nonce] =~~= seq![
        spec_sync_magic() + nonce
    ]);
}

/// From a partly matched end marker, its remainder completes the
/// handshake and the responder acknowledges.
proof fn lemma_responder_match_end(v: RespView, j: int)
    requires
        v.phase is MatchEnd,
        v.count == j,
        1 <= j < END_MAGIC_LEN,
    ensures
        ({
            let input = spec_end_magic().skip(j);
            &&& spec_responder_run(v, input).state.phase is Done
            &&& spec_responder_run(v, input).replies == seq![spec_end_magic()]
            &&& !spec_responder_run(v, input).fail
        }),
    decreases END_MAGIC_LEN - j,
{
    let input = spec_end_magic().skip(j);
    assert(spec_end_magic().len() == END_MAGIC_LEN);
    assert(input.len() == END_MAGIC_LEN - j);
    assert(input[0] == spec_end_magic()[j]);
    let st = spec_responder_step(v, input[0]);
    assert(!st.fail);
    if j + 1 == END_MAGIC_LEN {
        assert(st.state.phase is Done);
        assert(st.reply == Some(spec_end_magic()));
        assert(input.drop_first() =~= Seq::<u8>::empty());
        assert(spec_responder_run(st.state, input.drop_first()).replies =~~= Seq::<Seq<u8>>::empty());
        assert(spec_responder_run(v, input).state == st.state);
        assert(seq![spec_end_magic()] + Seq::<Seq<u8>>::empty() =~~= seq![spec_end_magic()]);
    } else {
        lemma_responder_match_end(st.state, j + 1);
        assert(input.drop_first() =~= spec_end_magic().skip(j + 1));
        assert(Seq::<Seq<u8>>::empty() + seq![spec_end_magic()] =~~= seq![spec_end_magic()]);
    }
}

/// After at least one echo, the end marker completes the handshake.
proof fn lemma_responder_end(v: RespView)
    requires
        v.phase is Seek,
        v.got_handshake,
    ensures
        spec_responder_run(v, spec_end_magic()).state.phase is Done,
        spec_responder_run(v, spec_end_magic()).replies == seq![spec_end_magic()],
        !spec_responder_run(v, spec_end_magic()).fail,
{
    let input = spec_end_magic();
    assert(input[0] == spec_end_magic()[0]);
    assert(input[0] != spec_sync_magic()[0]);
    let st = spec_responder_step(v, input[0]);
    lemma_responder_match_end(st.state, 1);
    assert(input.drop_first() =~= spec_end_magic().skip(1));
    assert(Seq::<Seq<u8>>::empty() + seq![spec_end_magic()] =~~= seq![spec_end_magic()]);
}

/// From scanning, `k` duplicate sync packets are all matched and echoed.
proof fn lemma_responder_syncs(v: RespView, nonce: Seq<u8>, k: nat)
    requires
        v.phase is Seek,
        nonce.len() == HANDSHAKE_NONCE_LEN,
        k >= 1,
    ensures
        ({
            let input = spec_repeat(spec_sync_magic() + nonce, k);
            &&& spec_responder_run(v, input).state == (RespView {
                phase: RespPhase::Seek,
                count: 0,
                got_handshake: true,
                nonce,
            })
            &&& spec_responder_run(v, input).replies == spec_repeat_seq(
                spec_sync_magic() + nonce,
                k,
            )
            &&& !spec_responder_run(v, input).fail
        }),
    decreases k,
{
    let p = spec_sync_magic() + nonce;
    if k == 1 {
        assert(spec_repeat(p, 1) =~= p + Seq::<u8>::empty());
        assert(p + Seq::<u8>::empty() =~= p);
        lemma_responder_sync_packet(v, nonce);
        assert(spec_repeat_seq(p, 0) =~~= Seq::<Seq<u8>>::empty());
        assert(spec_repeat_seq(p, 1) =~~= seq![p]);
    } else {
        lemma_responder_sync_packet(v, nonce);
        let mid = spec_responder_run(v, p).state;
        lemma_responder_syncs(mid, nonce, (k - 1) as nat);
        lemma_responder_run_append(v, p, spec_repeat(p, (k - 1) as nat));
        assert(spec_repeat(p, k) == p + spec_repeat(p, (k - 1) as nat));
        assert(seq![p] + spec_repeat_seq(p, (k - 1) as nat) =~~= spec_repeat_seq(p, k));
    }
}

/// Handshake convergence, responder side: a stream of `k >= 1` duplicate
/// sync packets followed by the end marker — duplication and delay, but
/// no corruption — drives a fresh responder to completion with no
/// protocol error. It echoes every packet, acknowledges the end marker,
/// and has consumed the whole stream, so both peers then agree on where
/// the first frame begins.
pub proof fn lemma_responder_convergence(nonce: Seq<u8>, k: nat)
    requires
        nonce.len() == HANDSHAKE_NONCE_LEN,
        k >= 1,
    ensures
        ({
            let input = spec_repeat(spec_sync_magic() + nonce, k) + spec_end_magic();
            let r = spec_responder_run(spec_responder_init(), input);
            &&& !r.fail
            &&& r.state.phase is Done
            &&& r.replies == spec_repeat_seq(spec_sync_magic() + nonce, k).push(spec_end_magic())
        }),
{
    let p = spec_sync_magic() + nonce;
    let syncs = spec_repeat(p, k);
    lemma_responder_syncs(spec_responder_init(), nonce, k);
    let mid = spec_responder_run(spec_responder_init(), syncs).state;
    lemma_responder_end(mid);
    lemma_responder_run_append(spec_responder_init(), syncs, spec_end_magic());
    assert(spec_repeat_seq(p, k) + seq![spec_end_magic()] =~~= spec_repeat_seq(p, k).push(
        spec_end_magic(),
    ));
}

/// Iterates the initiator's transition.
pub open spec fn spec_initiator_run(v: InitView, n: nat) -> InitView
    decreases n,
{
    if n == 0 {
        v
    } else {
        spec_initiator_run(spec_initiator_step(v).state, (n - 1) as nat)
    }
}

/// No fatal byte within the first `n` transitions.
pub open spec fn spec_initiator_ok(v: InitView, n: nat) -> bool
    decreases n,
{
    if n == 0 {
        true
    } else {
        !spec_initiator_step(v).fail && spec_initiator_ok(
            spec_initiator_step(v).state,
            (n - 1) as nat,
        )
    }
}

/// Draining `k` buffered echoes and the end-marker reply completes the
/// initiator in `k + 1` transitions, consuming the whole stream.
proof fn lemma_initiator_drain(v: InitView, k: nat)
    requires
        v.stage is Drain,
        v.nonce.len() == HANDSHAKE_NONCE_LEN,
        v.buf == spec_repeat(spec_sync_magic() + v.nonce, k) + spec_end_magic(),
    ensures
        spec_initiator_ok(v, k + 1),
        spec_initiator_run(v, k + 1).stage is Done,
        spec_initiator_run(v, k + 1).buf == Seq::<u8>::empty(),
    decreases k,
{
    let p = spec_sync_magic() + v.nonce;
    if k == 0 {
        assert(spec_repeat(p, 0) =~= Seq::<u8>::empty());
        assert(v.buf =~= spec_end_magic());
        assert(v.buf.len() == END_MAGIC_LEN);
        assert(v.buf[0] == spec_end_magic()[0]);
        assert(v.buf[0] != spec_sync_magic()[0]);
        let st = spec_initiator_step(v);
        assert(!st.fail);
        assert(st.state.stage is Done);
        assert(st.state.buf =~= Seq::<u8>::empty());
        assert(spec_initiator_run(v, 1) == spec_initiator_run(st.state, 0));
        assert(spec_initiator_ok(st.state, 0));
    } else {
        assert(v.buf =~= p + (spec_repeat(p, (k - 1) as nat) + spec_end_magic()));
        assert(v.buf[0] == p[0]);
        assert(p[0] == spec_sync_magic()[0]);
        assert(v.buf.len() >= SYNC_PACKET_LEN);
        let st = spec_initiator_step(v);
        assert(st.state.buf =~= spec_repeat(p, (k - 1) as nat) + spec_end_magic());
        lemma_initiator_drain(st.state, (k - 1) as nat);
    }
}

/// Handshake convergence, initiator side: with `k >= 1` echoes of its own
/// sync packet and the end-marker reply buffered, a searching initiator
/// completes in `k + 1` process steps with no protocol error and an
/// empty buffer, so both peers agree on where the first frame begins.
pub proof fn lemma_initiator_convergence(nonce: Seq<u8>, k: nat)
    requires
        nonce.len() == HANDSHAKE_NONCE_LEN,
        k >= 1,
    ensures
        ({
            let v = InitView {
                stage: InitStage::Search,
                nonce,
                buf: spec_repeat(spec_sync_magic() + nonce, k) + spec_end_magic(),
            };
            &&& spec_initiator_ok(v, k + 1)
            &&& spec_initiator_run(v, k + 1).stage is Done
            &&& spec_initiator_run(v, k + 1).buf == Seq::<u8>::empty()
        }),
{
    let p = spec_sync_magic() + nonce;
    let v = InitView {
        stage: InitStage::Search,
        nonce,
        buf: spec_repeat(p, k) + spec_end_magic(),
    };
    assert(v.buf.len() >= p.len());
    assert(v.buf.subrange(0, p.len() as int) =~= p);
    assert(spec_find(v.buf, p) == Some(0int));
    let st = spec_initiator_step(v);
    assert(st.state.buf =~= v.buf.skip(SYNC_PACKET_LEN as int));
    assert(v.buf.skip(SYNC_PACKET_LEN as int) =~= spec_repeat(p, (k - 1) as nat)
        + spec_end_magic());
    lemma_initiator_drain(st.state, (k - 1) as nat);
}

// ---------------------------------------------------------------------
// Nonce generation

/// Relies on `rand::thread_rng` and `rand_core::RngCore::fill_bytes`:
/// fills the buffer completely with random bytes. Nothing is promised of
/// the values; the caller enforces the protocol's collision-avoidance
/// rule afterwards.
#[verifier::external_body]
fn random_bytes(n: usize) -> (r: Vec<u8>)
    ensures
        r@.len() == n,
{
    let mut v = vec![0u8; n];
    rand::RngCore::fill_bytes(&mut rand::thread_rng(), &mut v);
    v
}

/// Replaces every nonce byte that collides with a marker's first byte, so
/// that neither peer can mistake nonce bytes for the start of a marker.
pub fn sanitize_nonce(nonce: &mut Vec<u8>)
    ensures
        final(nonce)@.len() == old(nonce)@.len(),
        forall|i: int|
            0 <= i < final(nonce)@.len() ==> #[trigger] final(nonce)@[i] != spec_sync_magic()[0]
                && final(nonce)@[i] != spec_end_magic()[0] && (final(nonce)@[i] == old(nonce)@[i]
                || final(nonce)@[i] == 255),
{
    let mut i: usize = 0;
    let ghost orig = nonce@;
    while i < nonce.len()
        invariant
            i <= nonce@.len(),
            nonce@.len() == orig.len(),
            forall|j: int| i <= j < orig.len() ==> nonce@[j] == orig[j],
            forall|j: int|
                0 <= j < i ==> (#[trigger] nonce@[j]) != spec_sync_magic()[0] && nonce@[j]
                    != spec_end_magic()[0] && (nonce@[j] == orig[j] || nonce@[j] == 255),
        decreases nonce@.len() - i,
    {
        proof {
            assert(spec_sync_magic()[0] == 0x01);
            assert(spec_end_magic()[0] == 0x02);
        }
        let ghost before = nonce@;
        let b = nonce[i];
        if b == 0x01 || b == 0x02 {
            nonce.set(i, 255);
        }
        proof {
            assert forall|j: int|
                0 <= j < i + 1 implies nonce@[j] != spec_sync_magic()[0] && nonce@[j]
                != spec_end_magic()[0] && (nonce@[j] == orig[j] || nonce@[j] == 255) by {
                if j < i {
                    assert(nonce@[j] == before[j]);
                    assert(before[j] != spec_sync_magic()[0] && before[j] != spec_end_magic()[0]
                        && (before[j] == orig[j] || before[j] == 255));
                } else {
                    assert(j == i);
                    if b == 0x01 || b == 0x02 {
                        assert(nonce@[j] == 255);
                    } else {
                        assert(nonce@[j] == before[j]);
                        assert(before[j] == orig[j]);
                        assert(before[j] == b);
                    }
                }
            }
        }
        i = i + 1;
    }
    proof {
        assert(spec_sync_magic()[0] == 0x01);
        assert(spec_end_magic()[0] == 0x02);
    }
}

/// A fresh random nonce for one connection attempt, with the collision
/// rule applied.
pub fn fresh_nonce() -> (r: Vec<u8>)
    ensures
        r@.len() == HANDSHAKE_NONCE_LEN,
        forall|i: int|
            0 <= i < r@.len() ==> r@[i] != spec_sync_magic()[0] && r@[i] != spec_end_magic()[0],
{
    let mut nonce = random_bytes(HANDSHAKE_NONCE_LEN);
    sanitize_nonce(&mut nonce);
    nonce
}

} // verus!

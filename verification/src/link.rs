//! The framed transport: a byte stream turned into a message channel.
//!
//! A [`LinkIo`] is the raw duplex byte stream (and the target's cycle
//! counter); nothing is promised of it, and every fatal condition it can
//! produce surfaces as a [`LinkError`]. A [`FrameBuffer`] holds the
//! unconsumed tail of previous reads and finds frame boundaries in it; its
//! capacity bounds the size of a frame. A [`ProxyLink`] is the target
//! side's connection: it performs the responder handshake, then sends
//! upstream messages and receives downstream messages.

use vstd::prelude::*;

use crate::codec::{
    decode_downstream, encode_upstream, spec_decode_downstream, spec_encode_downstream,
    spec_encode_upstream,
};
use crate::error::LinkError;
use crate::handshake::Responder;
use crate::protocol::{DownstreamMessage, UpstreamMessage, UpstreamMessageView};
use crate::slip::{frame_payload, spec_frame, spec_unescape, unescape_body, FRAME_END};
use crate::time::Instant;
use crate::utils::{spec_find, vec_skip};

verus! {

/// How many bytes one transport read may return at most.
pub const READ_CHUNK: usize = 256;

/// How many transport reads one blocking operation may make before the
/// connection is declared lost. Readily enough for any live peer; the
/// bound only makes the wait for a hung one end.
pub const READ_BUDGET: u64 = 0xffff_ffff;

/// The raw duplex byte stream to the peer, with the target's local cycle
/// counter. Implementations are hardware or test harness glue; nothing is
/// promised of them, and the link states what holds of every outcome.
pub trait LinkIo {
    /// Writes bytes to the peer, blocking until complete.
    fn write(&mut self, data: &Vec<u8>);

    /// Reads at most `max` bytes, blocking until at least one is read.
    /// An empty result means the stream is closed.
    fn read_some(&mut self, max: usize) -> Vec<u8>;

    /// Reads the local monotonic cycle counter. The counter may be
    /// shorter than 64 bits and wrap.
    fn counter(&mut self) -> u64;
}

// ---------------------------------------------------------------------
// Frame extraction

/// The first frame in `s`: its body (the bytes before the delimiter) and
/// what follows the delimiter. Empty frames are keep-alives and are
/// skipped. `None` while no delimiter has arrived.
pub open spec fn spec_extract(s: Seq<u8>) -> Option<(Seq<u8>, Seq<u8>)>
    decreases s.len(),
{
    match spec_find(s, seq![FRAME_END]) {
        Some(e) => {
            if e == 0 {
                spec_extract(s.skip(1))
            } else {
                Some((s.take(e), s.skip(e + 1)))
            }
        },
        None => None,
    }
}

/// `s` without its leading keep-alive (empty) frames.
pub open spec fn spec_skip_empty(s: Seq<u8>) -> Seq<u8>
    decreases s.len(),
{
    if s.len() > 0 && s[0] == FRAME_END {
        spec_skip_empty(s.skip(1))
    } else {
        s
    }
}

/// `spec_find` for a single byte finds its first occurrence.
proof fn lemma_find_single(s: Seq<u8>, b: u8)
    ensures
        match spec_find(s, seq![b]) {
            Some(i) => 0 <= i < s.len() && s[i] == b && forall|j: int| 0 <= j < i ==> s[j] != b,
            None => forall|j: int| 0 <= j < s.len() ==> s[j] != b,
        },
    decreases s.len(),
{
    if s.len() > 0 {
        assert(s.subrange(0, 1) =~= seq![s[0]]);
        if s[0] == b {
            assert(s.subrange(0, 1) =~= seq![b]);
        } else {
            assert(s.subrange(0, 1) != seq![b]) by {
                assert(seq![s[0]][0] == s[0]);
                assert(seq![b][0] == b);
            }
            lemma_find_single(s.drop_first(), b);
            match spec_find(s.drop_first(), seq![b]) {
                Some(i) => {
                    assert forall|j: int| 0 <= j < i + 1 implies s[j] != b by {
                        if j > 0 {
                            assert(s.drop_first()[j - 1] != b);
                        }
                    }
                },
                None => {
                    assert forall|j: int| 0 <= j < s.len() implies s[j] != b by {
                        if j > 0 {
                            assert(s.drop_first()[j - 1] != b);
                        }
                    }
                },
            }
        }
    }
}

/// The framing round trip on the wire: a framed non-empty payload,
/// followed by whatever comes next on the stream, is delimited exactly at
/// its own delimiter, and unescaping gives the payload back — whatever
/// end-of-frame or escape bytes the payload contained.
pub proof fn lemma_frame_round_trip(p: Seq<u8>, rest: Seq<u8>)
    requires
        p.len() > 0,
    ensures
        spec_extract(spec_frame(p) + rest) == Some((crate::slip::spec_escape(p), rest)),
        spec_unescape(crate::slip::spec_escape(p)) == Some(p),
{
    let esc = crate::slip::spec_escape(p);
    let s = spec_frame(p) + rest;
    crate::slip::lemma_escape_no_end(p);
    crate::slip::lemma_unescape_escape(p);
    assert(esc.len() >= 1) by {
        assert(crate::slip::spec_escape_byte(p[0]).len() >= 1);
    }
    let e = esc.len() as int;
    assert(s[e] == FRAME_END);
    assert forall|j: int| 0 <= j < e implies s[j] != FRAME_END by {
        assert(s[j] == esc[j]);
    }
    lemma_find_single(s, FRAME_END);
    assert(spec_find(s, seq![FRAME_END]) == Some(e)) by {
        match spec_find(s, seq![FRAME_END]) {
            Some(i) => {
                assert(!(i < e) && !(e < i));
            },
            None => {
                assert(false);
            },
        }
    }
    assert(s.take(e) =~= esc);
    assert(s.skip(e + 1) =~= rest);
}

/// The full wire round trip of a downstream message: framed and sent
/// before any further stream bytes, it is delimited at its own delimiter,
/// unescapes to its canonical encoding, and decodes to itself. In
/// particular the framed greeting that opens a session decodes on the
/// responder exactly as sent.
pub proof fn lemma_message_round_trip_downstream(m: DownstreamMessage, rest: Seq<u8>)
    ensures
        ({
            let enc = spec_encode_downstream(m);
            &&& spec_extract(spec_frame(enc) + rest) == Some((crate::slip::spec_escape(enc), rest))
            &&& spec_unescape(crate::slip::spec_escape(enc)) == Some(enc)
            &&& spec_decode_downstream(enc) == Some(m)
        }),
{
    let enc = spec_encode_downstream(m);
    assert(enc.len() > 0) by {
        match m {
            DownstreamMessage::Greeting { mode } => {},
            DownstreamMessage::Continue => {},
            DownstreamMessage::Instant(i) => {},
        }
    }
    lemma_frame_round_trip(enc, rest);
    crate::codec::lemma_downstream_round_trip(m);
}

/// Extracting a frame consumes at least its delimiter: the rest is
/// strictly shorter than the input.
pub proof fn lemma_extract_shrinks(s: Seq<u8>)
    ensures
        match spec_extract(s) {
            Some(p) => p.1.len() < s.len(),
            None => true,
        },
    decreases s.len(),
{
    match spec_find(s, seq![FRAME_END]) {
        Some(e) => {
            lemma_find_single(s, FRAME_END);
            if e == 0 {
                lemma_extract_shrinks(s.skip(1));
            }
        },
        None => {},
    }
}

/// A fixed-capacity buffer that holds the unconsumed tail of previous
/// reads and delimits frames in it. The capacity bounds the size of a
/// frame: a delimiter must appear within `capacity` buffered bytes.
#[derive(Debug)]
pub struct FrameBuffer {
    buf: Vec<u8>,
    scan: usize,
    capacity: usize,
}

/// The mathematical state of a [`FrameBuffer`]: its unconsumed bytes and
/// its capacity.
pub struct FrameBufferView {
    pub buf: Seq<u8>,
    pub capacity: int,
}

impl View for FrameBuffer {
    type V = FrameBufferView;

    closed spec fn view(&self) -> FrameBufferView {
        FrameBufferView { buf: self.buf@, capacity: self.capacity as int }
    }
}

impl FrameBuffer {
    /// The scan cursor never passes a delimiter.
    #[verifier::type_invariant]
    spec fn well_formed(&self) -> bool {
        &&& self.scan <= self.buf@.len()
        &&& forall|j: int| 0 <= j < self.scan ==> self.buf@[j] != FRAME_END
    }

    /// An empty buffer bounding frames to `capacity` bytes.
    pub fn new(capacity: usize) -> (r: Self)
        ensures
            r@.buf == Seq::<u8>::empty(),
            r@.capacity == capacity,
    {
        FrameBuffer { buf: Vec::new(), scan: 0, capacity }
    }

    /// Hands in bytes read from the transport.
    pub fn feed(&mut self, bytes: &Vec<u8>)
        ensures
            final(self)@.buf == old(self)@.buf + bytes@,
            final(self)@.capacity == old(self)@.capacity,
    {
        proof {
            use_type_invariant(&*self);
        }
        let keep_scan = self.scan;
        self.scan = 0;
        let mut buf: Vec<u8> = Vec::new();
        core::mem::swap(&mut buf, &mut self.buf);
        crate::utils::append_vec(&mut buf, bytes);
        self.buf = buf;
        self.scan = keep_scan;
    }

    /// How many more bytes fit before the capacity bound; zero demands
    /// that a frame be extracted first.
    pub fn free_space(&self) -> (r: usize)
        ensures
            r == (if self@.buf.len() < self@.capacity {
                self@.capacity - self@.buf.len()
            } else {
                0int
            }),
    {
        if self.buf.len() < self.capacity {
            self.capacity - self.buf.len()
        } else {
            0
        }
    }

    /// Removes the bytes of the first complete frame and returns its
    /// decoded payload. `Ok(None)` while no delimiter has arrived and
    /// there is still room to read more; keep-alive frames are consumed
    /// either way.
    pub fn next_frame(&mut self) -> (r: Result<Option<Vec<u8>>, LinkError>)
        ensures
            final(self)@.capacity == old(self)@.capacity,
            match spec_extract(old(self)@.buf) {
                Some((body, rest)) => {
                    &&& final(self)@.buf == rest
                    &&& match spec_unescape(body) {
                        Some(p) => r matches Ok(Some(v)) && v@ == p,
                        None => r == Err::<Option<Vec<u8>>, LinkError>(LinkError::BadEscape),
                    }
                },
                None => {
                    &&& final(self)@.buf == spec_skip_empty(old(self)@.buf)
                    &&& if final(self)@.buf.len() >= old(self)@.capacity {
                        r == Err::<Option<Vec<u8>>, LinkError>(LinkError::RecvPacketTooLarge)
                    } else {
                        r == Ok::<Option<Vec<u8>>, LinkError>(None)
                    }
                },
            },
    {
        proof {
            use_type_invariant(&*self);
        }
        let ghost orig = self.buf@;
        let mut frame_end: Option<usize> = None;
        loop
            invariant_except_break
                frame_end is None,
            invariant
                self.well_formed(),
                self@.capacity == old(self)@.capacity,
                spec_extract(orig) == spec_extract(self@.buf),
                spec_skip_empty(orig) == spec_skip_empty(self@.buf),
                orig == old(self)@.buf,
            ensures
                self.well_formed(),
                self@.capacity == old(self)@.capacity,
                spec_extract(orig) == spec_extract(self@.buf),
                match frame_end {
                    Some(e) => 0 < e < self@.buf.len() && spec_extract(self@.buf) == Some(
                        (self@.buf.take(e as int), self@.buf.skip(e + 1)),
                    ),
                    None => spec_extract(orig) is None && self@.buf == spec_skip_empty(orig),
                },
            decreases self@.buf.len(),
        {
            let ghost cur = self.buf@;
            let mut found: Option<usize> = None;
            let mut k: usize = self.scan;
            while k < self.buf.len()
                invariant_except_break
                    found is None,
                invariant
                    self.scan <= k <= self.buf@.len(),
                    self.well_formed(),
                    self.buf@ == cur,
                    forall|j: int| 0 <= j < k ==> self.buf@[j] != FRAME_END,
                ensures
                    self.buf@ == cur,
                    self.well_formed(),
                    match found {
                        Some(i) => i < cur.len() && cur[i as int] == FRAME_END && forall|j: int|
                            0 <= j < i ==> cur[j] != FRAME_END,
                        None => forall|j: int| 0 <= j < cur.len() ==> cur[j] != FRAME_END,
                    },
                decreases self.buf@.len() - k,
            {
                if self.buf[k] == FRAME_END {
                    found = Some(k);
                    break ;
                }
                k = k + 1;
            }
            proof {
                lemma_find_single(cur, FRAME_END);
            }
            match found {
                Some(e) => {
                    proof {
                        assert(cur[e as int] == FRAME_END);
                        assert(spec_find(cur, seq![FRAME_END]) == Some(e as int)) by {
                            match spec_find(cur, seq![FRAME_END]) {
                                Some(i) => {
                                    assert(!(i < e) && !(e < i));
                                },
                                None => {
                                    assert(false);
                                },
                            }
                        }
                    }
                    if e == 0 {
                        self.scan = 0;
                        self.buf = vec_skip(&self.buf, 1);
                    } else {
                        frame_end = Some(e);
                        break ;
                    }
                },
                None => {
                    self.scan = self.buf.len();
                    proof {
                        if cur.len() > 0 {
                            assert(cur[0] != FRAME_END);
                        }
                    }
                    break ;
                },
            }
        }
        match frame_end {
            Some(e) => {
                let ghost cur = self.buf@;
                let blen = self.buf.len();
                proof {
                    assert(e + 1 <= blen);
                }
                let body = self.buf_take(e);
                self.scan = 0;
                self.buf = vec_skip(&self.buf, e + 1);
                match unescape_body(&body) {
                    Ok(p) => Ok(Some(p)),
                    Err(er) => Err(er),
                }
            },
            None => {
                if self.buf.len() >= self.capacity {
                    Err(LinkError::RecvPacketTooLarge)
                } else {
                    Ok(None)
                }
            },
        }
    }

    /// A copy of the first `n` buffered bytes.
    fn buf_take(&self, n: usize) -> (r: Vec<u8>)
        requires
            n <= self@.buf.len(),
        ensures
            r@ == self@.buf.take(n as int),
    {
        let mut out: Vec<u8> = Vec::new();
        let mut i: usize = 0;
        proof {
            assert(self@.buf.take(0) =~= Seq::<u8>::empty());
        }
        while i < n
            invariant
                i <= n <= self@.buf.len(),
                out@ == self@.buf.take(i as int),
            decreases n - i,
        {
            out.push(self.buf[i]);
            proof {
                assert(self@.buf.take(i as int).push(self@.buf[i as int]) =~= self@.buf.take(
                    i + 1,
                ));
            }
            i = i + 1;
        }
        out
    }

    /// Discards everything buffered.
    pub fn clear(&mut self)
        ensures
            final(self)@.buf == Seq::<u8>::empty(),
            final(self)@.capacity == old(self)@.capacity,
    {
        self.scan = 0;
        self.buf = Vec::new();
    }
}

// ---------------------------------------------------------------------
// The target side's connection

/// The target side of the link. Owns the transport for the lifetime of
/// the connection; construction performs the responder handshake. Two
/// ghost logs record every message the link ever sent and received, so
/// the engine's contracts can speak of the protocol conversation.
pub struct ProxyLink<Io: LinkIo> {
    io: Io,
    fbuf: FrameBuffer,
    sent: Ghost<Seq<UpstreamMessageView>>,
    received: Ghost<Seq<DownstreamMessage>>,
}

impl<Io: LinkIo> ProxyLink<Io> {
    /// The configured frame capacity.
    pub closed spec fn spec_capacity(&self) -> int {
        self.fbuf@.capacity
    }

    /// Every upstream message sent over this link, in order.
    pub closed spec fn spec_sent(&self) -> Seq<UpstreamMessageView> {
        self.sent@
    }

    /// Every downstream message received over this link, in order.
    pub closed spec fn spec_received(&self) -> Seq<DownstreamMessage> {
        self.received@
    }

    /// The received bytes buffered but not yet decoded.
    pub closed spec fn spec_pending(&self) -> Seq<u8> {
        self.fbuf@.buf
    }

    /// Runs the responder handshake on `io`, echoing every sync packet
    /// and finishing on the end marker, then frames messages within
    /// `capacity` bytes. Fails on a closed stream or a byte that breaks
    /// the handshake protocol.
    pub fn new(io: Io, capacity: usize) -> (r: Result<Self, LinkError>)
        ensures
            match r {
                Ok(l) => {
                    &&& l.spec_capacity() == capacity
                    &&& l.spec_sent() == Seq::<UpstreamMessageView>::empty()
                    &&& l.spec_received() == Seq::<DownstreamMessage>::empty()
                },
                Err(e) => e == LinkError::StreamClosed || e == LinkError::BadHandshake || e
                    == LinkError::Timeout,
            },
    {
        let mut io = io;
        let mut resp = Responder::new();
        let mut fbuf = FrameBuffer::new(capacity);
        let mut done = false;
        let mut budget: u64 = READ_BUDGET;
        while !done
            invariant
                resp.inv(),
                fbuf@.capacity == capacity,
                done ==> resp@.phase is Done,
            decreases budget,
        {
            if budget == 0 {
                return Err(LinkError::Timeout);
            }
            budget = budget - 1;
            let chunk = io.read_some(READ_CHUNK);
            if chunk.len() == 0 {
                return Err(LinkError::StreamClosed);
            }
            let mut i: usize = 0;
            while i < chunk.len()
                invariant
                    i <= chunk@.len(),
                    resp.inv(),
                    fbuf@.capacity == capacity,
                    done ==> resp@.phase is Done,
                decreases chunk@.len() - i,
            {
                if done {
                    // Bytes after the handshake already belong to the
                    // framed session.
                    let mut one: Vec<u8> = Vec::new();
                    one.push(chunk[i]);
                    fbuf.feed(&one);
                } else {
                    match resp.step(chunk[i]) {
                        Ok(reply) => {
                            if let Some(reply) = reply {
                                io.write(&reply);
                            }
                        },
                        Err(e) => {
                            return Err(e);
                        },
                    }
                    if resp.is_done() {
                        done = true;
                    }
                }
                i = i + 1;
            }
        }
        Ok(ProxyLink { io, fbuf, sent: Ghost(Seq::empty()), received: Ghost(Seq::empty()) })
    }

    /// Gives the transport back when the session is over.
    pub fn into_io(self) -> (r: Io)
        ensures
            r == self.spec_io(),
    {
        let ProxyLink { io, .. } = self;
        io
    }

    /// The transport value held by the link.
    pub closed spec fn spec_io(&self) -> Io {
        self.io
    }

    /// The transport, for reading the target's cycle counter.
    pub fn io(&mut self) -> (r: &mut Io)
        ensures
            *r == old(self).spec_io(),
            final(self).spec_io() == *final(r),
            final(self).spec_capacity() == old(self).spec_capacity(),
            final(self).spec_sent() == old(self).spec_sent(),
            final(self).spec_received() == old(self).spec_received(),
            final(self).spec_pending() == old(self).spec_pending(),
    {
        &mut self.io
    }

    /// Receives one downstream message, reading more bytes as needed.
    /// Fails on a closed stream, an oversized packet, a bad escape, a
    /// payload that is not the canonical encoding of a message, or an
    /// exhausted read budget; the received message is appended to the
    /// reception log.
    pub fn recv(&mut self) -> (r: Result<DownstreamMessage, LinkError>)
        ensures
            final(self).spec_capacity() == old(self).spec_capacity(),
            final(self).spec_sent() == old(self).spec_sent(),
            match r {
                Ok(m) => final(self).spec_received() == old(self).spec_received().push(m),
                Err(e) => {
                    &&& final(self).spec_received() == old(self).spec_received()
                    &&& (e == LinkError::StreamClosed || e == LinkError::RecvPacketTooLarge || e
                        == LinkError::BadEscape || e == LinkError::MalformedMessage || e
                        == LinkError::Timeout)
                },
            },
    {
        let mut budget: u64 = READ_BUDGET;
        loop
            invariant
                self.spec_capacity() == old(self).spec_capacity(),
                self.spec_sent() == old(self).spec_sent(),
                self.spec_received() == old(self).spec_received(),
            decreases budget,
        {
            if budget == 0 {
                return Err(LinkError::Timeout);
            }
            budget = budget - 1;
            match self.fbuf.next_frame() {
                Ok(Some(payload)) => {
                    match decode_downstream(&payload) {
                        Ok(m) => {
                            proof {
                                self.received@ = self.received@.push(m);
                            }
                            return Ok(m);
                        },
                        Err(e) => {
                            return Err(e);
                        },
                    }
                },
                Ok(None) => {
                    let max = self.fbuf.free_space();
                    let chunk = self.io.read_some(max);
                    if chunk.len() == 0 {
                        return Err(LinkError::StreamClosed);
                    }
                    self.fbuf.feed(&chunk);
                },
                Err(e) => {
                    return Err(e);
                },
            }
        }
    }

    /// Encodes, frames and writes one upstream message. Succeeds exactly
    /// when the framed encoding fits the configured capacity; any bytes
    /// still pending in the receive buffer are destroyed either way, and
    /// a sent message is appended to the emission log.
    pub fn send(&mut self, msg: &UpstreamMessage) -> (r: Result<(), LinkError>)
        ensures
            final(self).spec_capacity() == old(self).spec_capacity(),
            final(self).spec_pending() == Seq::<u8>::empty(),
            final(self).spec_received() == old(self).spec_received(),
            ({
                let frame = spec_frame(spec_encode_upstream(msg@));
                if frame.len() <= old(self).spec_capacity() {
                    &&& r == Ok::<(), LinkError>(())
                    &&& final(self).spec_sent() == old(self).spec_sent().push(msg@)
                } else {
                    &&& r == Err::<(), LinkError>(LinkError::SendPacketTooLarge)
                    &&& final(self).spec_sent() == old(self).spec_sent()
                }
            }),
    {
        self.fbuf.clear();
        let payload = encode_upstream(msg);
        let frame = frame_payload(&payload);
        let cap = self.capacity();
        if frame.len() > cap {
            return Err(LinkError::SendPacketTooLarge);
        }
        self.io.write(&frame);
        proof {
            self.sent@ = self.sent@.push(msg@);
        }
        Ok(())
    }

    /// The configured frame capacity.
    pub fn capacity(&self) -> (r: usize)
        ensures
            r == self.spec_capacity(),
    {
        self.fbuf.capacity
    }

    /// Asks the proxy for the current time and blocks until the answer
    /// arrives: the query joins the emission log and, on success, the
    /// answer the reception log. Any other message in reply is the fatal
    /// protocol error.
    pub fn get_instant(&mut self) -> (r: Result<Instant, LinkError>)
        ensures
            final(self).spec_capacity() == old(self).spec_capacity(),
            crate::utils::spec_prefix_of(old(self).spec_sent(), final(self).spec_sent()),
            crate::utils::spec_prefix_of(old(self).spec_received(), final(self).spec_received()),
            match r {
                Ok(i) => {
                    &&& final(self).spec_sent() == old(self).spec_sent().push(
                        UpstreamMessageView::GetInstant,
                    )
                    &&& final(self).spec_received() == old(self).spec_received().push(
                        DownstreamMessage::Instant(i),
                    )
                },
                Err(e) => {
                    &&& e != LinkError::BadHandshake && e != LinkError::DidNotIterate && e
                        != LinkError::IterationCountOverflow && e != LinkError::NonMonotonicInstant
                    &&& (e == LinkError::SendPacketTooLarge ==> final(self).spec_sent() == old(self).spec_sent()
                        && final(self).spec_received() == old(self).spec_received())
                    &&& (e != LinkError::SendPacketTooLarge ==> final(self).spec_sent()
                        == old(self).spec_sent().push(UpstreamMessageView::GetInstant))
                    &&& (e == LinkError::UnexpectedMessage ==> final(self).spec_received().len()
                        == old(self).spec_received().len() + 1
                        && !(final(self).spec_received().last() is Instant))
                    &&& (e != LinkError::UnexpectedMessage && e != LinkError::SendPacketTooLarge
                        ==> final(self).spec_received() == old(self).spec_received())
                },
            },
    {
        proof {
            crate::utils::lemma_prefix_refl(self.spec_sent());
            crate::utils::lemma_prefix_refl(self.spec_received());
        }
        let ghost s0 = self.spec_sent();
        let ghost r0 = self.spec_received();
        match self.send(&UpstreamMessage::GetInstant) {
            Ok(()) => {
                proof {
                    crate::utils::lemma_prefix_push(s0, UpstreamMessageView::GetInstant);
                }
            },
            Err(e) => {
                return Err(e);
            },
        }
        match self.recv() {
            Ok(DownstreamMessage::Instant(i)) => {
                proof {
                    crate::utils::lemma_prefix_push(r0, DownstreamMessage::Instant(i));
                }
                Ok(i)
            },
            Ok(_) => {
                proof {
                    crate::utils::lemma_prefix_push(r0, self.spec_received().last());
                }
                Err(LinkError::UnexpectedMessage)
            },
            Err(e) => Err(e),
        }
    }
}

} // verus!

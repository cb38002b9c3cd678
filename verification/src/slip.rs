//! Self-synchronizing byte framing.
//!
//! A frame is an escaped payload followed by one literal end-of-frame byte.
//! Inside the payload, every occurrence of the end-of-frame byte or of the
//! escape byte is replaced by the escape byte followed by a distinct
//! substitute, so the end-of-frame byte appears on the wire only as a frame
//! delimiter and a receiver can resynchronize on it.

use vstd::prelude::*;

use crate::error::LinkError;

verus! {

/// Marks the end of a frame on the wire.
pub const FRAME_END: u8 = 0xc0;

/// Introduces a two-byte escape sequence.
pub const FRAME_ESC: u8 = 0xdb;

/// Substitute for an escaped end-of-frame byte.
pub const FRAME_ESC_END: u8 = 0xdc;

/// Substitute for an escaped escape byte.
pub const FRAME_ESC_ESC: u8 = 0xdd;

/// The wire form of one payload byte.
pub open spec fn spec_escape_byte(b: u8) -> Seq<u8> {
    if b == FRAME_END {
        seq![FRAME_ESC, FRAME_ESC_END]
    } else if b == FRAME_ESC {
        seq![FRAME_ESC, FRAME_ESC_ESC]
    } else {
        seq![b]
    }
}

/// The wire form of a payload, without the trailing delimiter.
pub open spec fn spec_escape(p: Seq<u8>) -> Seq<u8>
    decreases p.len(),
{
    if p.len() == 0 {
        Seq::empty()
    } else {
        spec_escape_byte(p[0]) + spec_escape(p.drop_first())
    }
}

/// The complete wire form of a frame: escaped payload, then the delimiter.
pub open spec fn spec_frame(p: Seq<u8>) -> Seq<u8> {
    spec_escape(p) + seq![FRAME_END]
}

/// The payload encoded by a frame body (the bytes strictly before the
/// delimiter), or `None` if an escape byte is followed by anything but the
/// two recognized substitutes — a lone escape byte at the very end of the
/// body, where the delimiter follows it, among them.
pub open spec fn spec_unescape(s: Seq<u8>) -> Option<Seq<u8>>
    decreases s.len(),
{
    if s.len() == 0 {
        Some(Seq::empty())
    } else if s[0] == FRAME_ESC {
        if s.len() >= 2 && s[1] == FRAME_ESC_END {
            match spec_unescape(s.skip(2)) {
                Some(t) => Some(seq![FRAME_END] + t),
                None => None,
            }
        } else if s.len() >= 2 && s[1] == FRAME_ESC_ESC {
            match spec_unescape(s.skip(2)) {
                Some(t) => Some(seq![FRAME_ESC] + t),
                None => None,
            }
        } else {
            None
        }
    } else {
        match spec_unescape(s.drop_first()) {
            Some(t) => Some(seq![s[0]] + t),
            None => None,
        }
    }
}

/// Prefixes a decoded payload with already-decoded bytes, keeping a decode
/// failure a failure.
spec fn spec_prepend(pre: Seq<u8>, o: Option<Seq<u8>>) -> Option<Seq<u8>> {
    match o {
        Some(t) => Some(pre + t),
        None => None,
    }
}

proof fn lemma_prepend_assoc(a: Seq<u8>, b: Seq<u8>, o: Option<Seq<u8>>)
    ensures
        spec_prepend(a, spec_prepend(b, o)) == spec_prepend(a + b, o),
{
    match o {
        Some(t) => {
            assert(a + (b + t) =~= (a + b) + t);
        },
        None => {},
    }
}

/// Appending one payload byte appends its wire form.
pub proof fn lemma_escape_snoc(p: Seq<u8>, b: u8)
    ensures
        spec_escape(p.push(b)) == spec_escape(p) + spec_escape_byte(b),
    decreases p.len(),
{
    if p.len() == 0 {
        assert(p.push(b)[0] == b);
        assert(p.push(b).drop_first() =~= Seq::<u8>::empty());
        assert(spec_escape(p.push(b)) == spec_escape_byte(b) + spec_escape(Seq::<u8>::empty()));
        assert(spec_escape_byte(b) + Seq::<u8>::empty() =~= spec_escape_byte(b));
        assert(spec_escape(p) + spec_escape_byte(b) =~= spec_escape_byte(b));
    } else {
        assert(p.push(b).drop_first() =~= p.drop_first().push(b));
        lemma_escape_snoc(p.drop_first(), b);
        assert(spec_escape(p.push(b)) =~= spec_escape(p) + spec_escape_byte(b));
    }
}

/// The escaped payload never contains the end-of-frame byte, so the
/// delimiter appended by `spec_frame` is the only unescaped one.
pub proof fn lemma_escape_no_end(p: Seq<u8>)
    ensures
        forall|i: int| 0 <= i < spec_escape(p).len() ==> spec_escape(p)[i] != FRAME_END,
    decreases p.len(),
{
    if p.len() > 0 {
        lemma_escape_no_end(p.drop_first());
        let head = spec_escape_byte(p[0]);
        let tail = spec_escape(p.drop_first());
        assert(spec_escape(p) == head + tail);
        assert forall|i: int| 0 <= i < spec_escape(p).len() implies spec_escape(p)[i] != FRAME_END by {
            if i < head.len() {
                assert(spec_escape(p)[i] == head[i]);
            } else {
                assert(spec_escape(p)[i] == tail[i - head.len()]);
            }
        }
    }
}

/// A framed payload contains exactly one end-of-frame byte, at its end.
pub proof fn lemma_frame_single_delimiter(p: Seq<u8>)
    ensures
        spec_frame(p).len() == spec_escape(p).len() + 1,
        spec_frame(p)[spec_frame(p).len() - 1] == FRAME_END,
        forall|i: int|
            0 <= i < spec_frame(p).len() - 1 ==> spec_frame(p)[i] != FRAME_END,
{
    lemma_escape_no_end(p);
}

/// Unescaping the escaped form of any payload gives the payload back.
pub proof fn lemma_unescape_escape(p: Seq<u8>)
    ensures
        spec_unescape(spec_escape(p)) == Some(p),
    decreases p.len(),
{
    if p.len() == 0 {
        assert(spec_unescape(spec_escape(p)) =~= Some(p));
    } else {
        let b = p[0];
        let rest = p.drop_first();
        lemma_unescape_escape(rest);
        if b == FRAME_END || b == FRAME_ESC {
            assert(spec_escape(p).skip(2) =~= spec_escape(rest));
            assert(seq![b] + rest =~= p);
        } else {
            assert(spec_escape(p).len() >= 1);
            assert(spec_escape(p)[0] == b);
            assert(spec_escape(p).drop_first() =~= spec_escape(rest));
            assert(seq![b] + rest =~= p);
        }
    }
}

/// Builds the complete wire form of one frame from a payload.
pub fn frame_payload(p: &Vec<u8>) -> (r: Vec<u8>)
    ensures
        r@ == spec_frame(p@),
{
    let mut out: Vec<u8> = Vec::new();
    let mut i: usize = 0;
    while i < p.len()
        invariant
            i <= p@.len(),
            out@ == spec_escape(p@.take(i as int)),
        decreases p@.len() - i,
    {
        let b = p[i];
        if b == FRAME_END {
            out.push(FRAME_ESC);
            out.push(FRAME_ESC_END);
        } else if b == FRAME_ESC {
            out.push(FRAME_ESC);
            out.push(FRAME_ESC_ESC);
        } else {
            out.push(b);
        }
        proof {
            lemma_escape_snoc(p@.take(i as int), b);
            assert(p@.take(i as int).push(b) =~= p@.take(i + 1 as int));
        }
        i = i + 1;
    }
    proof {
        assert(p@.take(p@.len() as int) =~= p@);
    }
    out.push(FRAME_END);
    out
}

/// Collapses the escape sequences of a frame body back into the payload.
/// Fails exactly where the body is not the escaped form of any payload.
pub fn unescape_body(body: &Vec<u8>) -> (r: Result<Vec<u8>, LinkError>)
    ensures
        match r {
            Ok(p) => spec_unescape(body@) == Some(p@),
            Err(e) => spec_unescape(body@) is None && e == LinkError::BadEscape,
        },
{
    let mut out: Vec<u8> = Vec::new();
    let mut i: usize = 0;
    proof {
        assert(body@.skip(0) =~= body@);
    }
    while i < body.len()
        invariant
            i <= body@.len(),
            spec_unescape(body@) == spec_prepend(out@, spec_unescape(body@.skip(i as int))),
        decreases body@.len() - i,
    {
        let ghost pre = body@.skip(i as int);
        let ghost out0 = out@;
        let b = body[i];
        assert(pre[0] == body@[i as int]);
        if b == FRAME_ESC {
            if i + 1 >= body.len() {
                // The delimiter followed an escape byte: fatal.
                return Err(LinkError::BadEscape);
            }
            let b2 = body[i + 1];
            assert(pre.len() >= 2 && pre[1] == body@[i + 1]);
            let decoded: u8 = if b2 == FRAME_ESC_END {
                FRAME_END
            } else if b2 == FRAME_ESC_ESC {
                FRAME_ESC
            } else {
                assert(spec_unescape(pre) is None);
                return Err(LinkError::BadEscape);
            };
            out.push(decoded);
            proof {
                assert(pre.skip(2) =~= body@.skip(i + 2));
                assert(spec_unescape(pre) == spec_prepend(
                    seq![decoded],
                    spec_unescape(body@.skip(i + 2)),
                ));
                lemma_prepend_assoc(out0, seq![decoded], spec_unescape(body@.skip(i + 2)));
                assert(out0 + seq![decoded] =~= out@);
            }
            i = i + 2;
        } else {
            out.push(b);
            proof {
                assert(pre.drop_first() =~= body@.skip(i + 1));
                assert(spec_unescape(pre) == spec_prepend(
                    seq![b],
                    spec_unescape(body@.skip(i + 1)),
                ));
                lemma_prepend_assoc(out0, seq![b], spec_unescape(body@.skip(i + 1)));
                assert(out0 + seq![b] =~= out@);
            }
            i = i + 1;
        }
    }
    proof {
        assert(body@.skip(body@.len() as int) =~= Seq::<u8>::empty());
        assert(out@ + Seq::<u8>::empty() =~= out@);
    }
    Ok(out)
}

} // verus!

//! Fatal conditions of the link and of the benchmark engine.
//!
//! None of these are recoverable: the protocol offers no resynchronization
//! once framing, handshake or decoding has failed, and the engine treats
//! arithmetic overflow and a routine that never iterates as configuration
//! errors.

use vstd::prelude::*;

verus! {

/// A fatal error of the link layer or of the benchmark engine.
#[derive(Debug, Copy, Clone, PartialEq, Eq, Structural)]
pub enum LinkError {
    /// A read from the transport returned zero bytes while the connection
    /// was expected to be alive.
    StreamClosed,
    /// An escape byte was followed by a byte that names no substitute.
    BadEscape,
    /// A received frame did not fit in the link buffer even after
    /// compaction: the packet is larger than the configured capacity.
    RecvPacketTooLarge,
    /// An encoded, framed message did not fit in the link buffer.
    SendPacketTooLarge,
    /// A handshake byte matched neither marker where one was required.
    BadHandshake,
    /// A framed payload was not a well-formed message.
    MalformedMessage,
    /// A well-formed message arrived where a different kind was expected.
    UnexpectedMessage,
    /// The derived total iteration count overflowed 64 bits.
    IterationCountOverflow,
    /// A benchmark routine returned without reporting any iteration.
    DidNotIterate,
    /// Two readings of the session clock went backwards.
    NonMonotonicInstant,
    /// The peer made no progress within the operation's read budget.
    Timeout,
}

} // verus!

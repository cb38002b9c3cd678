//! FarCri: a link protocol and benchmark execution engine for driving
//! micro-benchmarks on a remote, resource-constrained target.
//!
//! The crate covers the byte framing and message codec of the link, the
//! handshake that aligns two independently started peers on frame
//! boundaries, and the warm-up/sampling engine that turns raw timer deltas
//! into reported measurements.

pub mod arch;
pub mod bencher;
pub mod bid;
pub mod cargo;
pub mod codec;
pub mod criterion;
pub mod error;
pub mod func;
pub mod handshake;
pub mod link;
pub mod plan;
pub mod protocol;
pub mod session;
pub mod slip;
pub mod targets;
pub mod time;
pub mod utils;

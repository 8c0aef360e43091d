//! A user-space TCP (IPv4) engine for a point-to-point tun-style device.
//!
//! The crate holds the verified core of the stack: 32-bit wrap-around
//! sequence arithmetic, the per-connection state machine with RFC 793
//! segment-acceptability checks, segment emission bookkeeping, and the
//! connection manager that multiplexes inbound segments and backs the
//! listener/stream interface. Reading and writing the tun device itself
//! is left to the hosting program; the core consumes parsed header values
//! and returns the segments to transmit.

pub mod seqnums;
pub mod wire;
pub mod tcp;
pub mod manager;

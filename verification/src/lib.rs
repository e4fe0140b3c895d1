//! A stop-and-wait automatic-repeat-request protocol over an unreliable
//! datagram channel: the wire codec for data and acknowledgment frames, the
//! sender and receiver state machines with their single-bit alternating
//! sequence number, and a fault injector that drops or corrupts outgoing
//! frames with configured probabilities. Beside it lives a best-effort DNS
//! message codec that answers queries with a hardcoded address record.
//!
//! Everything that decides or computes is verified; sockets, timers and
//! threads stay with the embedding program, which feeds frames in and
//! carries the returned bytes out.

pub mod dns;
pub mod rdt;
pub mod receiver;
pub mod sender;
pub mod udt;

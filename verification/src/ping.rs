//! Results of the ICMP echo client.
//!
//! The echo client itself is an outside collaborator; the engine only
//! consumes its results: one sequence-numbered round trip per reply, or an
//! error line.

use vstd::prelude::*;

verus! {

/// One successful echo round trip: the sequence number, the reply's TTL,
/// the round trip in milliseconds, and the target as the user wrote it.
#[derive(Debug, Clone)]
pub struct PingResult {
    pub seq: u16,
    pub ttl: u8,
    pub time_ms: u64,
    pub target: String,
}

} // verus!

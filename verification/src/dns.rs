//! Results of the DNS lookup panel.
//!
//! The resolver is an outside collaborator; the engine only consumes the
//! records it returns, one value and time-to-live per record, grouped by
//! the record type that was asked for.

use vstd::prelude::*;

verus! {

/// One resolved record: its textual value and its time-to-live.
#[derive(Debug, Clone)]
pub struct DnsRecord {
    pub value: String,
    pub ttl: u32,
}

/// A lookup's records, by the record type that was asked for.
#[derive(Debug, Clone)]
pub enum DnsResult {
    A(Vec<DnsRecord>),
    AAAA(Vec<DnsRecord>),
    MX(Vec<DnsRecord>),
    TXT(Vec<DnsRecord>),
    NS(Vec<DnsRecord>),
}

} // verus!

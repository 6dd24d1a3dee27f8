//! Plain-value model of network addresses.
//!
//! The engine never keeps an operating-system address type: an IPv4 address
//! is its 32-bit value, an IPv6 address its 128-bit value.  The boundary code
//! that owns real sockets converts at the edge.

use vstd::prelude::*;

verus! {

/// A network address as a plain value.
#[derive(Clone, Copy, Debug, PartialEq, Eq, Structural)]
pub enum IpAddress {
    V4(u32),
    V6(u128),
}

impl IpAddress {
    /// True for addresses in the IPv4 loopback block `127.0.0.0/8` or equal
    /// to the IPv6 loopback `::1`.
    pub fn is_loopback(&self) -> (r: bool)
        ensures
            r == self.spec_is_loopback(),
    {
        match self {
            IpAddress::V4(ip) => (*ip >> 24) == 127u32,
            IpAddress::V6(ip) => *ip == 1u128,
        }
    }

    pub open spec fn spec_is_loopback(self) -> bool {
        match self {
            IpAddress::V4(ip) => ip >> 24 == 127u32,
            IpAddress::V6(ip) => ip == 1u128,
        }
    }

    /// True for the unspecified addresses `0.0.0.0` and `::`.
    pub fn is_unspecified(&self) -> (r: bool)
        ensures
            r == self.spec_is_unspecified(),
    {
        match self {
            IpAddress::V4(ip) => *ip == 0u32,
            IpAddress::V6(ip) => *ip == 0u128,
        }
    }

    pub open spec fn spec_is_unspecified(self) -> bool {
        match self {
            IpAddress::V4(ip) => ip == 0u32,
            IpAddress::V6(ip) => ip == 0u128,
        }
    }
}

} // verus!

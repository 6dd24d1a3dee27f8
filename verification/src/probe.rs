//! The hop-by-hop latency prober's packet construction and cycle control.
//!
//! One probe is a 64-byte ICMP echo request sent with an increasing TTL; the
//! prober sweeps TTL 1 up to the configured maximum, ends a sweep early once
//! the target itself answers, sleeps between sweeps, and stops cooperatively
//! or after a configured number of cycles.  The socket I/O lives outside the
//! crate; this module decides what to send and what to do next.

use vstd::prelude::*;
use crate::hop::{MtrResult, RTT_NO_REPLY};
use crate::net::IpAddress;

verus! {

/// The checksum bytes that the RFC 1071 Internet checksum assigns to a byte
/// string.
pub uninterp spec fn inet_checksum_of(data: Seq<u8>) -> (u8, u8);

/// Relies on `internet_checksum::checksum`: the RFC 1071 checksum of the
/// bytes, in network order; a function of the bytes alone.
#[verifier::external_body]
fn inet_checksum(data: &[u8]) -> (r: (u8, u8))
    ensures
        (r.0, r.1) == inet_checksum_of(data@),
{
    let c = internet_checksum::checksum(data);
    (c[0], c[1])
}

/// A 64-byte echo request before its checksum is embedded: the echo-request
/// type byte (8 for IPv4, 128 for IPv6), then a zero code byte, a zero
/// checksum field and a zero payload.
pub open spec fn spec_echo_base(is_v4: bool) -> Seq<u8> {
    Seq::new(
        64,
        |i: int|
            if i == 0 {
                if is_v4 {
                    8u8
                } else {
                    128u8
                }
            } else {
                0u8
            },
    )
}

/// Build one echo-request probe packet.  For IPv4 the Internet checksum of
/// the zero-checksum packet is embedded at bytes 2 and 3; for IPv6 the
/// network stack computes the checksum, so those bytes stay zero.
pub fn build_echo_request(is_v4: bool) -> (p: Vec<u8>)
    ensures
        p@.len() == 64,
        p@[0] == if is_v4 {
            8u8
        } else {
            128u8
        },
        p@[1] == 0u8,
        forall|i: int| 4 <= i < 64 ==> p@[i] == 0u8,
        is_v4 ==> (p@[2], p@[3]) == inet_checksum_of(spec_echo_base(true)),
        !is_v4 ==> p@[2] == 0u8 && p@[3] == 0u8,
{
    let mut p: Vec<u8> = Vec::new();
    p.push(if is_v4 {
        8u8
    } else {
        128u8
    });
    let mut i: usize = 1;
    while i < 64
        invariant
            1 <= i <= 64,
            p@.len() == i,
            p@[0] == if is_v4 {
                8u8
            } else {
                128u8
            },
            forall|k: int| 1 <= k < i ==> p@[k] == 0u8,
        decreases 64 - i,
    {
        p.push(0u8);
        i = i + 1;
    }
    proof {
        assert(p@ =~= spec_echo_base(is_v4));
    }
    if is_v4 {
        let c = inet_checksum(p.as_slice());
        p[2] = c.0;
        p[3] = c.1;
    }
    p
}

/// Build the result of a probe whose socket got an answer: any reply counts
/// as reaching a hop, and the sweep's target is recognized by address.
pub fn make_probe_reply(ttl: u8, responder: Option<IpAddress>, rtt_ms: u64, target: &IpAddress) -> (r:
    MtrResult)
    ensures
        r.ttl == ttl,
        r.host == responder,
        r.rtt_ms == rtt_ms,
        r.successful,
        r.is_target == (responder == Some(*target)),
{
    let is_target = match &responder {
        Option::Some(ip) => *ip == *target,
        Option::None => false,
    };
    MtrResult { ttl, host: responder, rtt_ms, successful: true, is_target }
}

/// Build the result of a probe whose read timed out or failed.
pub fn make_probe_timeout(ttl: u8) -> (r: MtrResult)
    ensures
        r.ttl == ttl,
        r.host is None,
        r.rtt_ms == RTT_NO_REPLY,
        !r.successful,
        !r.is_target,
{
    MtrResult { ttl, host: None, rtt_ms: RTT_NO_REPLY, successful: false, is_target: false }
}

/// The probe task handle: its cooperative stop flag, polled by the probe
/// loop between probes and between cycles.
pub struct MtrTask {
    pub should_stop: bool,
}

impl MtrTask {
    /// A fresh task that has not been asked to stop.
    pub fn new() -> (t: MtrTask)
        ensures
            !t.should_stop,
    {
        MtrTask { should_stop: false }
    }

    /// Request cooperative stop.
    pub fn stop(&mut self)
        ensures
            final(self).should_stop,
    {
        self.should_stop = true;
    }
}

/// The prober's cycle state: how many sweeps have run, which TTL the current
/// sweep probes next, whether the sweep ended early, and the stop flag.
pub struct ProbeCycle {
    pub max_hops: u8,
    pub count: Option<u64>,
    pub cycles_done: u64,
    pub ttl: u16,
    pub sweep_over: bool,
    pub stopped: bool,
}

impl ProbeCycle {
    /// Start the cycle machine: no sweep has run and none is in progress.
    pub fn new(max_hops: u8, count: Option<u64>) -> (c: ProbeCycle)
        ensures
            c.max_hops == max_hops,
            c.count == count,
            c.cycles_done == 0,
            c.sweep_over,
            !c.stopped,
    {
        ProbeCycle { max_hops, count, cycles_done: 0, ttl: 1, sweep_over: true, stopped: false }
    }

    /// Begin the next sweep.  Refuses — so the loop terminates — once the
    /// stop flag is set or the configured number of cycles has run.
    pub fn begin_cycle(&mut self) -> (go: bool)
        ensures
            go == (!old(self).stopped && match old(self).count {
                Some(c) => old(self).cycles_done < c,
                None => true,
            }),
            final(self).max_hops == old(self).max_hops,
            final(self).count == old(self).count,
            final(self).stopped == old(self).stopped,
            go ==> {
                &&& final(self).cycles_done == old(self).cycles_done.saturating_add(1)
                &&& final(self).ttl == 1
                &&& !final(self).sweep_over
            },
            !go ==> *final(self) == *old(self),
    {
        if self.stopped {
            return false;
        }
        if let Some(c) = self.count {
            if self.cycles_done >= c {
                return false;
            }
        }
        self.cycles_done = self.cycles_done.saturating_add(1);
        self.ttl = 1;
        self.sweep_over = false;
        true
    }

    /// The TTL to probe next, or `None` when the sweep is over: the stop
    /// flag is set, the target answered, or every TTL up to the maximum has
    /// been probed.  A stopped machine never yields another TTL.
    pub fn next_ttl(&mut self) -> (t: Option<u8>)
        ensures
            t == if !old(self).stopped && !old(self).sweep_over && old(self).ttl <= old(
                self,
            ).max_hops {
                Some(old(self).ttl as u8)
            } else {
                Option::<u8>::None
            },
            t is Some ==> *final(self) == (ProbeCycle {
                ttl: (old(self).ttl + 1) as u16,
                ..*old(self)
            }),
            t is None ==> *final(self) == *old(self),
    {
        if !self.stopped && !self.sweep_over && self.ttl <= self.max_hops as u16 {
            let t = self.ttl as u8;
            self.ttl = self.ttl + 1;
            Some(t)
        } else {
            None
        }
    }

    /// Record a probe's outcome: a reply from the target itself ends the
    /// sweep early.
    pub fn on_result(&mut self, is_target: bool)
        ensures
            *final(self) == (ProbeCycle {
                sweep_over: old(self).sweep_over || is_target,
                ..*old(self)
            }),
    {
        if is_target {
            self.sweep_over = true;
        }
    }

    /// Request cooperative stop: no further TTL is yielded and no further
    /// sweep begins.
    pub fn stop(&mut self)
        ensures
            *final(self) == (ProbeCycle { stopped: true, ..*old(self) }),
    {
        self.stopped = true;
    }
}

/// Once stopped, the cycle machine is silent: it never begins another sweep
/// and never yields another TTL, so a stopped probe task emits nothing more.
pub proof fn lemma_stopped_probe_is_silent(c: ProbeCycle)
    requires
        c.stopped,
    ensures
        !(!c.stopped && match c.count {
            Some(n) => c.cycles_done < n,
            None => true,
        }),
        !(!c.stopped && !c.sweep_over && c.ttl <= c.max_hops),
{
}

} // verus!

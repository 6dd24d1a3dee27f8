//! Per-hop statistics for the hop-by-hop latency prober.
//!
//! The prober emits one [`MtrResult`] per TTL attempted; this module folds
//! that stream into running per-hop statistics, exactly one entry per TTL,
//! indexed by `ttl - 1`.

use vstd::prelude::*;
use std::collections::VecDeque;
use crate::history::{push_bounded, pushed_bounded};
use crate::net::IpAddress;
use crate::strfmt::{fmt_ip, spec_ip_text};

verus! {

/// Capacity of the per-hop RTT history buffer.
pub const HOP_HISTORY_CAP: usize = 100;

/// Sentinel for `best` before any reply arrived.
pub const BEST_SENTINEL: u64 = 9999;

/// Sentinel RTT of a probe that got no reply.
pub const RTT_NO_REPLY: u64 = u64::MAX;

/// One round-trip attempt of the prober: the TTL probed, who answered (if
/// anyone), the round trip in milliseconds, and whether the responder was the
/// traced target itself.
#[derive(Debug, Clone)]
pub struct MtrResult {
    pub ttl: u8,
    pub host: Option<IpAddress>,
    pub rtt_ms: u64,
    pub successful: bool,
    pub is_target: bool,
}

/// Running statistics of one hop.  `loss_hundredths` is the loss percentage
/// scaled by one hundred (0 ..= 10000), kept as an integer.
#[derive(Debug, Clone)]
pub struct HopStats {
    pub ttl: u8,
    pub host: String,
    pub sent: u64,
    pub recv: u64,
    pub last: u64,
    pub best: u64,
    pub worst: u64,
    pub avg: u64,
    pub loss_hundredths: u64,
    pub history: VecDeque<u64>,
    pub jitter: u64,
}

/// Loss percentage in hundredths: `(sent - recv) / sent * 100`, as the
/// truncating integer division of `(sent - recv) * 10000` by `sent`.
pub open spec fn spec_loss_hundredths(sent: nat, recv: nat) -> nat {
    if sent == 0 {
        0nat
    } else {
        ((sent - recv) * 10000 / sent as int) as nat
    }
}

/// The running average after one more sample `t`, over `n` prior samples:
/// `(avg * n + t) / (n + 1)`, truncating.
pub open spec fn spec_running_avg(avg: nat, n: nat, t: nat) -> nat {
    (((avg * n + t) as int) / ((n + 1) as int)) as nat
}

/// The absolute difference of two sample times.
pub open spec fn spec_abs_diff(a: nat, b: nat) -> nat {
    if a >= b {
        (a - b) as nat
    } else {
        (b - a) as nat
    }
}

/// The text shown for a responder: its address, or `???` when unknown.
pub open spec fn spec_host_text(host: Option<IpAddress>) -> Seq<char> {
    match host {
        Option::Some(ip) => spec_ip_text(ip),
        Option::None => seq!['?', '?', '?'],
    }
}

/// The statistics entry a never-probed TTL starts from.  Mirrors the entry
/// grown on demand when a farther hop is first seen: counters zero, `best`
/// at its sentinel, empty history.
pub open spec fn spec_placeholder(ttl: u8, h: HopStats) -> bool {
    &&& h.ttl == ttl
    &&& h.host@ == seq!['?', '?', '?']
    &&& h.sent == 0
    &&& h.recv == 0
    &&& h.last == 0
    &&& h.best == BEST_SENTINEL
    &&& h.worst == 0
    &&& h.avg == 0
    &&& h.loss_hundredths == 0
    &&& h.history@ == Seq::<u64>::empty()
    &&& h.jitter == 0
}

impl HopStats {
    /// Internal consistency of one hop entry.
    pub open spec fn wf(self) -> bool {
        &&& self.recv <= self.sent
        &&& self.history@.len() <= HOP_HISTORY_CAP
        &&& self.loss_hundredths == spec_loss_hundredths(self.sent as nat, self.recv as nat)
    }

    /// A fresh entry for a TTL that has not been probed yet.
    pub fn placeholder(ttl: u8) -> (h: HopStats)
        ensures
            spec_placeholder(ttl, h),
            h.wf(),
    {
        proof {
            reveal_strlit("???");
        }
        let h = HopStats {
            ttl,
            host: "???".to_owned(),
            sent: 0,
            recv: 0,
            last: 0,
            best: BEST_SENTINEL,
            worst: 0,
            avg: 0,
            loss_hundredths: 0,
            history: VecDeque::new(),
            jitter: 0,
        };
        assert(h.host@ =~= seq!['?', '?', '?']);
        h
    }

    /// Fold one probe result into this hop's statistics.
    ///
    /// A successful result bumps both counters, records the responder and the
    /// round trip, updates the running average and the smoothed jitter with
    /// the same truncating integer divisions a consumer would recompute, and
    /// appends the round trip to the bounded history.  A failed result bumps
    /// `sent` alone.  Either way the loss percentage is recomputed.
    pub fn record(&mut self, r: &MtrResult)
        requires
            old(self).wf(),
            old(self).sent < u64::MAX,
        ensures
            final(self).wf(),
            final(self).ttl == old(self).ttl,
            final(self).sent == old(self).sent + 1,
            final(self).loss_hundredths == spec_loss_hundredths(
                final(self).sent as nat,
                final(self).recv as nat,
            ),
            r.successful ==> {
                &&& final(self).recv == old(self).recv + 1
                &&& final(self).host@ == spec_host_text(r.host)
                &&& final(self).last == r.rtt_ms
                &&& final(self).best == if r.rtt_ms < old(self).best {
                    r.rtt_ms
                } else {
                    old(self).best
                }
                &&& final(self).worst == if r.rtt_ms > old(self).worst {
                    r.rtt_ms
                } else {
                    old(self).worst
                }
                &&& final(self).avg == spec_running_avg(
                    old(self).avg as nat,
                    old(self).recv as nat,
                    r.rtt_ms as nat,
                )
                &&& final(self).jitter == if old(self).recv == 0 {
                    spec_abs_diff(r.rtt_ms as nat, old(self).last as nat)
                } else {
                    spec_running_avg(
                        old(self).jitter as nat,
                        old(self).recv as nat,
                        spec_abs_diff(r.rtt_ms as nat, old(self).last as nat),
                    )
                }
                &&& final(self).history@ == pushed_bounded(
                    old(self).history@,
                    HOP_HISTORY_CAP as nat,
                    r.rtt_ms,
                )
            },
            !r.successful ==> {
                &&& final(self).recv == old(self).recv
                &&& final(self).host == old(self).host
                &&& final(self).last == old(self).last
                &&& final(self).best == old(self).best
                &&& final(self).worst == old(self).worst
                &&& final(self).avg == old(self).avg
                &&& final(self).jitter == old(self).jitter
                &&& final(self).history == old(self).history
            },
    {
        self.sent = self.sent + 1;
        if r.successful {
            let time = r.rtt_ms;
            let prior_recv = self.recv;
            self.recv = self.recv + 1;
            self.host = match &r.host {
                Option::Some(ip) => fmt_ip(ip),
                Option::None => {
                    proof {
                        reveal_strlit("???");
                    }
                    let u = "???".to_owned();
                    assert(u@ =~= seq!['?', '?', '?']);
                    u
                },
            };

            let sample = if time > self.last {
                time - self.last
            } else {
                self.last - time
            };
            if prior_recv > 0 {
                self.jitter = running_avg(self.jitter, prior_recv, sample);
            } else {
                self.jitter = sample;
            }

            self.last = time;
            if time < self.best {
                self.best = time;
            }
            if time > self.worst {
                self.worst = time;
            }
            self.avg = running_avg(self.avg, prior_recv, time);

            push_bounded(&mut self.history, HOP_HISTORY_CAP, time);
        }
        self.loss_hundredths = loss_hundredths(self.sent, self.recv);
    }
}

/// The running average `(avg * n + t) / (n + 1)`, computed without overflow.
fn running_avg(avg: u64, n: u64, t: u64) -> (r: u64)
    requires
        n < u64::MAX,
    ensures
        r == spec_running_avg(avg as nat, n as nat, t as nat),
{
    proof {
        assert((avg as int) * (n as int) + (t as int) <= u128::MAX) by (nonlinear_arith)
            requires
                avg <= u64::MAX,
                n <= u64::MAX,
                t <= u64::MAX,
        ;
    }
    let num: u128 = (avg as u128) * (n as u128) + (t as u128);
    let den: u128 = (n as u128) + 1;
    let q: u128 = num / den;
    proof {
        assert(num <= (u64::MAX as u128) * den) by (nonlinear_arith)
            requires
                num == (avg as u128) * (n as u128) + (t as u128),
                den == (n as u128) + 1,
                avg <= u64::MAX,
                t <= u64::MAX,
        ;
        assert(q <= u64::MAX) by (nonlinear_arith)
            requires
                q == num / den,
                num <= (u64::MAX as u128) * den,
                den >= 1,
        ;
    }
    q as u64
}

/// The loss percentage in hundredths, computed without overflow.
fn loss_hundredths(sent: u64, recv: u64) -> (r: u64)
    requires
        recv <= sent,
    ensures
        r == spec_loss_hundredths(sent as nat, recv as nat),
        r <= 10000,
{
    if sent == 0 {
        0
    } else {
        let num: u128 = ((sent - recv) as u128) * 10000;
        let q: u128 = num / (sent as u128);
        proof {
            assert(q <= 10000) by (nonlinear_arith)
                requires
                    q == num / (sent as u128),
                    num == ((sent - recv) as u128) * 10000,
                    recv <= sent,
                    sent >= 1,
            ;
        }
        q as u64
    }
}

/// A whole trace's statistics are well formed: every entry is.
pub open spec fn hops_wf(hops: Seq<HopStats>) -> bool {
    forall|i: int| 0 <= i < hops.len() ==> (#[trigger] hops[i]).wf()
}

/// Fold one probe result into the per-hop table, growing it with placeholder
/// entries if this TTL has never been seen.  The table is indexed by
/// `ttl - 1`; entries for other TTLs are untouched.
pub fn record_result(hops: &mut Vec<HopStats>, r: &MtrResult)
    requires
        hops_wf(old(hops)@),
        r.ttl >= 1,
        r.ttl - 1 < old(hops)@.len() ==> old(hops)@[r.ttl - 1].sent < u64::MAX,
    ensures
        hops_wf(final(hops)@),
        final(hops)@.len() == if old(hops)@.len() >= r.ttl {
            old(hops)@.len() as int
        } else {
            r.ttl as int
        },
        forall|i: int|
            0 <= i < old(hops)@.len() && i != r.ttl - 1 ==> final(hops)@[i] == old(hops)@[i],
        forall|i: int|
            old(hops)@.len() <= i < final(hops)@.len() && i != r.ttl - 1 ==> spec_placeholder(
                r.ttl,
                #[trigger] final(hops)@[i],
            ),
        r.ttl - 1 < old(hops)@.len() ==> recorded(
            old(hops)@[r.ttl - 1],
            final(hops)@[r.ttl - 1],
            *r,
        ),
        r.ttl - 1 >= old(hops)@.len() ==> exists|h: HopStats|
            spec_placeholder(r.ttl, h) && h.wf() && recorded(h, #[trigger] final(hops)@[r.ttl - 1], *r),
{
    let ttl_idx: usize = (r.ttl - 1) as usize;
    let ghost orig = hops@;
    while hops.len() < ttl_idx + 1
        invariant
            ttl_idx <= 254,
            hops_wf(hops@),
            hops@.len() >= old(hops)@.len(),
            hops@.len() <= ttl_idx + 1 || hops@.len() == old(hops)@.len(),
            forall|i: int| 0 <= i < old(hops)@.len() ==> hops@[i] == old(hops)@[i],
            forall|i: int|
                old(hops)@.len() <= i < hops@.len() ==> spec_placeholder(
                    r.ttl,
                    #[trigger] hops@[i],
                ),
        decreases ttl_idx + 1 - hops.len(),
    {
        hops.push(HopStats::placeholder(r.ttl));
    }
    let ghost grown = hops@;
    let hop = &mut hops[ttl_idx];
    hop.record(r);
    proof {
        assert(recorded(grown[ttl_idx as int], hops@[ttl_idx as int], *r));
        if ttl_idx as int >= orig.len() {
            assert(spec_placeholder(r.ttl, grown[ttl_idx as int]));
            assert(grown[ttl_idx as int].wf());
        }
    }
}

/// How `after` relates to `before` once one result `r` has been folded in:
/// the relation proved by [`HopStats::record`].
pub open spec fn recorded(before: HopStats, after: HopStats, r: MtrResult) -> bool {
    &&& after.wf()
    &&& after.ttl == before.ttl
    &&& after.sent == before.sent + 1
    &&& after.loss_hundredths == spec_loss_hundredths(after.sent as nat, after.recv as nat)
    &&& r.successful ==> {
        &&& after.recv == before.recv + 1
        &&& after.host@ == spec_host_text(r.host)
        &&& after.last == r.rtt_ms
        &&& after.best == if r.rtt_ms < before.best {
            r.rtt_ms
        } else {
            before.best
        }
        &&& after.worst == if r.rtt_ms > before.worst {
            r.rtt_ms
        } else {
            before.worst
        }
        &&& after.avg == spec_running_avg(before.avg as nat, before.recv as nat, r.rtt_ms as nat)
        &&& after.jitter == if before.recv == 0 {
            spec_abs_diff(r.rtt_ms as nat, before.last as nat)
        } else {
            spec_running_avg(
                before.jitter as nat,
                before.recv as nat,
                spec_abs_diff(r.rtt_ms as nat, before.last as nat),
            )
        }
        &&& after.history@ == pushed_bounded(before.history@, HOP_HISTORY_CAP as nat, r.rtt_ms)
    }
    &&& !r.successful ==> {
        &&& after.recv == before.recv
        &&& after.host == before.host
        &&& after.last == before.last
        &&& after.best == before.best
        &&& after.worst == before.worst
        &&& after.avg == before.avg
        &&& after.jitter == before.jitter
        &&& after.history == before.history
    }
}

/// However many results arrive at a hop, in whatever order, its counters
/// stay consistent: a fresh entry is well formed, and each folded result
/// takes a well-formed entry to a well-formed entry, so by induction
/// `recv <= sent` holds always, and the loss percentage stays between zero
/// and one hundred percent (here in hundredths: between 0 and 10000).
pub proof fn lemma_record_preserves_bounds(before: HopStats, after: HopStats, r: MtrResult)
    requires
        before.wf(),
        recorded(before, after, r),
    ensures
        after.wf(),
        after.recv <= after.sent,
        after.loss_hundredths <= 10000,
{
    lemma_loss_bounds(after);
}

/// For every sequence of results delivered to one hop: starting well
/// formed, each state along the chain of folds is well formed, so
/// `recv <= sent` holds at every point and the loss percentage never
/// leaves [0, 100] (here in hundredths: [0, 10000]).
///
/// `states` is the chain of hop states, `results` the results folded in:
/// `states[i + 1]` is `states[i]` with `results[i]` recorded.
pub proof fn lemma_fold_preserves_bounds(states: Seq<HopStats>, results: Seq<MtrResult>)
    requires
        states.len() == results.len() + 1,
        states[0].wf(),
        forall|i: int|
            0 <= i < results.len() ==> recorded(#[trigger] states[i], states[i + 1], results[i]),
    ensures
        forall|i: int|
            0 <= i < states.len() ==> (#[trigger] states[i]).wf() && states[i].recv
                <= states[i].sent && states[i].loss_hundredths <= 10000,
    decreases results.len(),
{
    lemma_loss_bounds(states[0]);
    if results.len() > 0 {
        lemma_record_preserves_bounds(states[0], states[1], results[0]);
        let states1 = states.subrange(1, states.len() as int);
        let results1 = results.subrange(1, results.len() as int);
        assert forall|i: int|
            0 <= i < results1.len() implies recorded(
            #[trigger] states1[i],
            states1[i + 1],
            results1[i],
        ) by {
            assert(states1[i] == states[i + 1]);
            assert(states1[i + 1] == states[i + 2]);
            assert(results1[i] == results[i + 1]);
        }
        lemma_fold_preserves_bounds(states1, results1);
        assert forall|i: int|
            0 <= i < states.len() implies (#[trigger] states[i]).wf() && states[i].recv
            <= states[i].sent && states[i].loss_hundredths <= 10000 by {
            if i > 0 {
                assert(states1[i - 1] == states[i]);
                assert(states1[i - 1].wf() && states1[i - 1].recv <= states1[i - 1].sent
                    && states1[i - 1].loss_hundredths <= 10000);
            }
        }
    }
}

/// A well-formed hop entry keeps `recv` within `sent` and its loss
/// percentage within bounds.
pub proof fn lemma_loss_bounds(h: HopStats)
    requires
        h.wf(),
    ensures
        h.recv <= h.sent,
        h.loss_hundredths <= 10000,
        h.sent > 0 ==> h.loss_hundredths == (h.sent - h.recv) * 10000 / h.sent as int,
{
    if h.sent > 0 {
        assert((h.sent - h.recv) * 10000 / h.sent as int <= 10000) by (nonlinear_arith)
            requires
                h.recv <= h.sent,
                h.sent >= 1,
        ;
    }
}

} // verus!



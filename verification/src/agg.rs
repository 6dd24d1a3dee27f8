//! The aggregation layer: one state, many producers.
//!
//! On a fixed tick the dashboard drains every producer channel without
//! blocking and folds what arrived into this state: bounded history buffers
//! for the charts, per-hop statistics for the trace table, the packet log,
//! the connection map, and per-tick rates derived from the capture
//! engine's cumulative counters by saturating subtraction — a counter reset
//! yields a zero rate, never an underflow.  Bandwidth is kept in bits per
//! second; consumers divide by one million for megabits.

use vstd::prelude::*;
use std::collections::VecDeque;
use crate::conn::{spec_conns_unique, ConnectionInfo};
use crate::history::{push_bounded, pushed_bounded};
use crate::hop::{hops_wf, record_result, recorded, spec_placeholder, HopStats, MtrResult};
use crate::ping::PingResult;
use crate::summary::PacketSummary;

verus! {

/// Capacity of the ping panel's result log.
pub const PING_LOG_CAP: usize = 50;

/// Capacity of every chart's history buffer.
pub const CHART_CAP: usize = 100;

/// Capacity of the packet log.
pub const PACKET_LOG_CAP: usize = 1000;

/// Capacity of the text-output panels.
pub const TOOL_LOG_CAP: usize = 1000;

/// The rotation advance per tick, in micro-radians.
pub const ROTATION_STEP: u64 = 50000;

/// A full turn, in micro-radians.
pub const FULL_TURN: u64 = 6283185;

/// Everything the dashboard's panels read, owned by the single consumer of
/// all producer channels.
pub struct Dashboard {
    pub ping_history: VecDeque<Result<PingResult, String>>,
    pub ping_rtt_history: VecDeque<u64>,
    pub sniffer_packets: VecDeque<PacketSummary>,
    pub mtr_hops: Vec<HopStats>,
    pub nmap_output: VecDeque<String>,
    pub arpscan_output: VecDeque<String>,
    pub active_connections: Vec<ConnectionInfo>,
    pub connection_count_history: VecDeque<u64>,
    pub traffic_history: VecDeque<u64>,
    pub rx_history: VecDeque<u64>,
    pub tx_history: VecDeque<u64>,
    pub last_packet_count: u64,
    pub last_rx_count: u64,
    pub last_tx_count: u64,
    pub wan_rx_history: VecDeque<u64>,
    pub wan_tx_history: VecDeque<u64>,
    pub lan_rx_history: VecDeque<u64>,
    pub lan_tx_history: VecDeque<u64>,
    pub last_wan_rx_bytes: u64,
    pub last_wan_tx_bytes: u64,
    pub last_lan_rx_bytes: u64,
    pub last_lan_tx_bytes: u64,
    pub globe_rotation_micros: u64,
    pub db_ping_history: VecDeque<u64>,
    pub db_jitter_history: VecDeque<u64>,
}

/// A saturating per-tick delta: how much a cumulative counter grew, and
/// zero — never a negative or wrapped value — if it shrank because a
/// capture session restarted.
pub open spec fn spec_rate_delta(cur: u64, prev: u64) -> u64 {
    if cur >= prev {
        (cur - prev) as u64
    } else {
        0
    }
}

/// Bits per second carried by `delta` bytes over `elapsed_ms` milliseconds,
/// truncating, saturated to `u64`.
pub open spec fn spec_bits_per_sec(delta: u64, elapsed_ms: u64) -> u64 {
    if elapsed_ms == 0 {
        0
    } else if delta * 8000 / (elapsed_ms as int) > u64::MAX {
        u64::MAX
    } else {
        (delta * 8000 / (elapsed_ms as int)) as u64
    }
}

/// The rotation phase one tick later: advanced by the step, wrapped after a
/// full turn.
pub open spec fn spec_next_rotation(cur: u64) -> u64 {
    if cur + ROTATION_STEP > FULL_TURN {
        (cur + ROTATION_STEP - FULL_TURN) as u64
    } else {
        (cur + ROTATION_STEP) as u64
    }
}

/// The absolute difference of two round trips, as shown in the jitter
/// chart.
pub open spec fn spec_jitter_sample(cur: u64, prev: u64) -> u64 {
    if cur >= prev {
        (cur - prev) as u64
    } else {
        (prev - cur) as u64
    }
}

fn zeros_chart() -> (q: VecDeque<u64>)
    ensures
        q@ == Seq::new(CHART_CAP as nat, |i: int| 0u64),
{
    let mut q: VecDeque<u64> = VecDeque::new();
    let mut i: usize = 0;
    while i < CHART_CAP
        invariant
            i <= CHART_CAP,
            q@ =~= Seq::new(i as nat, |k: int| 0u64),
        decreases CHART_CAP - i,
    {
        q.push_back(0);
        i = i + 1;
        assert(q@ =~= Seq::new(i as nat, |k: int| 0u64));
    }
    q
}

impl Dashboard {
    /// Every buffer within its capacity, the trace table and connection map
    /// internally consistent, the rotation phase within one turn.
    pub open spec fn wf(self) -> bool {
        &&& self.ping_history@.len() <= PING_LOG_CAP
        &&& self.ping_rtt_history@.len() <= CHART_CAP
        &&& self.sniffer_packets@.len() <= PACKET_LOG_CAP
        &&& hops_wf(self.mtr_hops@)
        &&& self.nmap_output@.len() <= TOOL_LOG_CAP
        &&& self.arpscan_output@.len() <= TOOL_LOG_CAP
        &&& spec_conns_unique(self.active_connections@)
        &&& self.connection_count_history@.len() <= CHART_CAP
        &&& self.traffic_history@.len() <= CHART_CAP
        &&& self.rx_history@.len() <= CHART_CAP
        &&& self.tx_history@.len() <= CHART_CAP
        &&& self.wan_rx_history@.len() <= CHART_CAP
        &&& self.wan_tx_history@.len() <= CHART_CAP
        &&& self.lan_rx_history@.len() <= CHART_CAP
        &&& self.lan_tx_history@.len() <= CHART_CAP
        &&& self.globe_rotation_micros <= FULL_TURN
        &&& self.db_ping_history@.len() <= CHART_CAP
        &&& self.db_jitter_history@.len() <= CHART_CAP
    }

    /// A fresh dashboard: the chart buffers pre-filled with a full window of
    /// zeros so the charts start flat, the logs empty, every counter zero.
    pub fn new() -> (d: Dashboard)
        ensures
            d.wf(),
            d.ping_history@ == Seq::<Result<PingResult, String>>::empty(),
            d.ping_rtt_history@ == Seq::<u64>::empty(),
            d.sniffer_packets@ == Seq::<PacketSummary>::empty(),
            d.mtr_hops@ == Seq::<HopStats>::empty(),
            d.nmap_output@ == Seq::<String>::empty(),
            d.arpscan_output@ == Seq::<String>::empty(),
            d.active_connections@ == Seq::<ConnectionInfo>::empty(),
            d.connection_count_history@ == Seq::new(CHART_CAP as nat, |i: int| 0u64),
            d.traffic_history@ == Seq::new(CHART_CAP as nat, |i: int| 0u64),
            d.rx_history@ == Seq::new(CHART_CAP as nat, |i: int| 0u64),
            d.tx_history@ == Seq::new(CHART_CAP as nat, |i: int| 0u64),
            d.wan_rx_history@ == Seq::new(CHART_CAP as nat, |i: int| 0u64),
            d.wan_tx_history@ == Seq::new(CHART_CAP as nat, |i: int| 0u64),
            d.lan_rx_history@ == Seq::new(CHART_CAP as nat, |i: int| 0u64),
            d.lan_tx_history@ == Seq::new(CHART_CAP as nat, |i: int| 0u64),
            d.db_ping_history@ == Seq::new(CHART_CAP as nat, |i: int| 0u64),
            d.db_jitter_history@ == Seq::new(CHART_CAP as nat, |i: int| 0u64),
            d.last_packet_count == 0,
            d.last_rx_count == 0,
            d.last_tx_count == 0,
            d.last_wan_rx_bytes == 0,
            d.last_wan_tx_bytes == 0,
            d.last_lan_rx_bytes == 0,
            d.last_lan_tx_bytes == 0,
            d.globe_rotation_micros == 0,
    {
        Dashboard {
            ping_history: VecDeque::new(),
            ping_rtt_history: VecDeque::new(),
            sniffer_packets: VecDeque::new(),
            mtr_hops: Vec::new(),
            nmap_output: VecDeque::new(),
            arpscan_output: VecDeque::new(),
            active_connections: Vec::new(),
            connection_count_history: zeros_chart(),
            traffic_history: zeros_chart(),
            rx_history: zeros_chart(),
            tx_history: zeros_chart(),
            last_packet_count: 0,
            last_rx_count: 0,
            last_tx_count: 0,
            wan_rx_history: zeros_chart(),
            wan_tx_history: zeros_chart(),
            lan_rx_history: zeros_chart(),
            lan_tx_history: zeros_chart(),
            last_wan_rx_bytes: 0,
            last_wan_tx_bytes: 0,
            last_lan_rx_bytes: 0,
            last_lan_tx_bytes: 0,
            globe_rotation_micros: 0,
            db_ping_history: zeros_chart(),
            db_jitter_history: zeros_chart(),
        }
    }

    /// Fold one ping result into the ping panel: a successful round trip
    /// joins the RTT chart, and every result, error lines included, joins
    /// the result log.
    pub fn on_ping_result(&mut self, r: Result<PingResult, String>)
        requires
            old(self).wf(),
        ensures
            final(self).wf(),
            *final(self) == (Dashboard {
                ping_history: final(self).ping_history,
                ping_rtt_history: final(self).ping_rtt_history,
                ..*old(self)
            }),
            final(self).ping_rtt_history@ == (match r {
                Ok(res) => pushed_bounded(
                    old(self).ping_rtt_history@,
                    CHART_CAP as nat,
                    res.time_ms,
                ),
                Err(_) => old(self).ping_rtt_history@,
            }),
            final(self).ping_history@ == pushed_bounded(
                old(self).ping_history@,
                PING_LOG_CAP as nat,
                r,
            ),
    {
        if let Ok(res) = &r {
            push_bounded(&mut self.ping_rtt_history, CHART_CAP, res.time_ms);
        }
        push_bounded(&mut self.ping_history, PING_LOG_CAP, r);
    }

    /// Fold one captured-frame summary into the packet log.
    pub fn on_packet(&mut self, p: PacketSummary)
        requires
            old(self).wf(),
        ensures
            final(self).wf(),
            *final(self) == (Dashboard { sniffer_packets: final(self).sniffer_packets, ..*old(self) }),
            final(self).sniffer_packets@ == pushed_bounded(
                old(self).sniffer_packets@,
                PACKET_LOG_CAP as nat,
                p,
            ),
    {
        push_bounded(&mut self.sniffer_packets, PACKET_LOG_CAP, p);
    }

    /// Fold one probe result into the trace table.  A hop whose `sent`
    /// counter has reached the far end of `u64` is left as it is.
    pub fn on_mtr_result(&mut self, r: &MtrResult)
        requires
            old(self).wf(),
            r.ttl >= 1,
        ensures
            final(self).wf(),
            *final(self) == (Dashboard { mtr_hops: final(self).mtr_hops, ..*old(self) }),
            r.ttl - 1 < old(self).mtr_hops@.len() && old(self).mtr_hops@[r.ttl - 1].sent
                == u64::MAX ==> final(self).mtr_hops == old(self).mtr_hops,
            (r.ttl - 1 >= old(self).mtr_hops@.len() || old(self).mtr_hops@[r.ttl - 1].sent
                < u64::MAX) ==> {
                &&& final(self).mtr_hops@.len() == if old(self).mtr_hops@.len() >= r.ttl {
                    old(self).mtr_hops@.len() as int
                } else {
                    r.ttl as int
                }
                &&& forall|i: int|
                    0 <= i < old(self).mtr_hops@.len() && i != r.ttl - 1
                        ==> final(self).mtr_hops@[i] == old(self).mtr_hops@[i]
                &&& forall|i: int|
                    old(self).mtr_hops@.len() <= i < final(self).mtr_hops@.len() && i != r.ttl - 1
                        ==> spec_placeholder(r.ttl, #[trigger] final(self).mtr_hops@[i])
                &&& (r.ttl - 1 < old(self).mtr_hops@.len() ==> recorded(
                    old(self).mtr_hops@[r.ttl - 1],
                    final(self).mtr_hops@[r.ttl - 1],
                    *r,
                ))
                &&& (r.ttl - 1 >= old(self).mtr_hops@.len() ==> exists|h: HopStats|
                    spec_placeholder(r.ttl, h) && h.wf() && recorded(
                        h,
                        #[trigger] final(self).mtr_hops@[r.ttl - 1],
                        *r,
                    ))
            },
    {
        let idx: usize = (r.ttl - 1) as usize;
        if idx < self.mtr_hops.len() {
            let saturated = self.mtr_hops[idx].sent == u64::MAX;
            if saturated {
                return;
            }
        }
        record_result(&mut self.mtr_hops, r);
    }

    /// Append one line of a text tool's output to its panel.
    pub fn on_nmap_line(&mut self, line: String)
        requires
            old(self).wf(),
        ensures
            final(self).wf(),
            *final(self) == (Dashboard { nmap_output: final(self).nmap_output, ..*old(self) }),
            final(self).nmap_output@ == pushed_bounded(
                old(self).nmap_output@,
                TOOL_LOG_CAP as nat,
                line,
            ),
    {
        push_bounded(&mut self.nmap_output, TOOL_LOG_CAP, line);
    }

    /// Append one line of the link-layer scan's output to its panel.
    pub fn on_arpscan_line(&mut self, line: String)
        requires
            old(self).wf(),
        ensures
            final(self).wf(),
            *final(self) == (Dashboard { arpscan_output: final(self).arpscan_output, ..*old(self) }),
            final(self).arpscan_output@ == pushed_bounded(
                old(self).arpscan_output@,
                TOOL_LOG_CAP as nat,
                line,
            ),
    {
        push_bounded(&mut self.arpscan_output, TOOL_LOG_CAP, line);
    }

    /// Install a freshly folded connection snapshot (see
    /// [`crate::conn::fold_snapshot`]) and chart the connection count.
    pub fn set_connections(&mut self, conns: Vec<ConnectionInfo>)
        requires
            old(self).wf(),
            spec_conns_unique(conns@),
        ensures
            final(self).wf(),
            *final(self) == (Dashboard {
                active_connections: final(self).active_connections,
                connection_count_history: final(self).connection_count_history,
                ..*old(self)
            }),
            final(self).active_connections == conns,
            final(self).connection_count_history@ == pushed_bounded(
                old(self).connection_count_history@,
                CHART_CAP as nat,
                conns@.len() as u64,
            ),
    {
        let n: u64 = conns.len() as u64;
        self.active_connections = conns;
        push_bounded(&mut self.connection_count_history, CHART_CAP, n);
    }

    /// Fold one background-ping round trip into the latency and jitter
    /// charts: the jitter sample is the absolute difference from the most
    /// recent charted round trip (zero when the chart is empty).
    pub fn on_db_ping(&mut self, time_ms: u64)
        requires
            old(self).wf(),
        ensures
            final(self).wf(),
            *final(self) == (Dashboard {
                db_ping_history: final(self).db_ping_history,
                db_jitter_history: final(self).db_jitter_history,
                ..*old(self)
            }),
            ({
                let prev = if old(self).db_ping_history@.len() > 0 {
                    old(self).db_ping_history@[old(self).db_ping_history@.len() - 1]
                } else {
                    0u64
                };
                &&& final(self).db_jitter_history@ == pushed_bounded(
                    old(self).db_jitter_history@,
                    CHART_CAP as nat,
                    spec_jitter_sample(time_ms, prev),
                )
                &&& final(self).db_ping_history@ == pushed_bounded(
                    old(self).db_ping_history@,
                    CHART_CAP as nat,
                    time_ms,
                )
            }),
    {
        let prev: u64 = if self.db_ping_history.len() > 0 {
            self.db_ping_history[self.db_ping_history.len() - 1]
        } else {
            0
        };
        let jitter = if time_ms >= prev {
            time_ms - prev
        } else {
            prev - time_ms
        };
        push_bounded(&mut self.db_jitter_history, CHART_CAP, jitter);
        push_bounded(&mut self.db_ping_history, CHART_CAP, time_ms);
    }

    /// Chart one tick's packet rates from the capture engine's cumulative
    /// counters.  Each rate is the saturating difference from the counter's
    /// value at the previous tick: a counter reset charts as zero.
    pub fn on_tick_counters(&mut self, packet_count: u64, rx_count: u64, tx_count: u64)
        requires
            old(self).wf(),
        ensures
            final(self).wf(),
            *final(self) == (Dashboard {
                traffic_history: final(self).traffic_history,
                rx_history: final(self).rx_history,
                tx_history: final(self).tx_history,
                last_packet_count: packet_count,
                last_rx_count: rx_count,
                last_tx_count: tx_count,
                ..*old(self)
            }),
            final(self).traffic_history@ == pushed_bounded(
                old(self).traffic_history@,
                CHART_CAP as nat,
                spec_rate_delta(packet_count, old(self).last_packet_count),
            ),
            final(self).rx_history@ == pushed_bounded(
                old(self).rx_history@,
                CHART_CAP as nat,
                spec_rate_delta(rx_count, old(self).last_rx_count),
            ),
            final(self).tx_history@ == pushed_bounded(
                old(self).tx_history@,
                CHART_CAP as nat,
                spec_rate_delta(tx_count, old(self).last_tx_count),
            ),
    {
        let pps = packet_count.saturating_sub(self.last_packet_count);
        let rx_pps = rx_count.saturating_sub(self.last_rx_count);
        let tx_pps = tx_count.saturating_sub(self.last_tx_count);
        self.last_packet_count = packet_count;
        self.last_rx_count = rx_count;
        self.last_tx_count = tx_count;
        push_bounded(&mut self.traffic_history, CHART_CAP, pps);
        push_bounded(&mut self.rx_history, CHART_CAP, rx_pps);
        push_bounded(&mut self.tx_history, CHART_CAP, tx_pps);
    }

    /// Chart one tick's bandwidth from the capture engine's cumulative byte
    /// counters, in bits per second over the elapsed interval.  Deltas
    /// saturate at zero like every rate.
    pub fn on_tick_bandwidth(
        &mut self,
        wan_rx: u64,
        wan_tx: u64,
        lan_rx: u64,
        lan_tx: u64,
        elapsed_ms: u64,
    )
        requires
            old(self).wf(),
            elapsed_ms > 0,
        ensures
            final(self).wf(),
            *final(self) == (Dashboard {
                wan_rx_history: final(self).wan_rx_history,
                wan_tx_history: final(self).wan_tx_history,
                lan_rx_history: final(self).lan_rx_history,
                lan_tx_history: final(self).lan_tx_history,
                last_wan_rx_bytes: wan_rx,
                last_wan_tx_bytes: wan_tx,
                last_lan_rx_bytes: lan_rx,
                last_lan_tx_bytes: lan_tx,
                ..*old(self)
            }),
            final(self).wan_rx_history@ == pushed_bounded(
                old(self).wan_rx_history@,
                CHART_CAP as nat,
                spec_bits_per_sec(spec_rate_delta(wan_rx, old(self).last_wan_rx_bytes), elapsed_ms),
            ),
            final(self).wan_tx_history@ == pushed_bounded(
                old(self).wan_tx_history@,
                CHART_CAP as nat,
                spec_bits_per_sec(spec_rate_delta(wan_tx, old(self).last_wan_tx_bytes), elapsed_ms),
            ),
            final(self).lan_rx_history@ == pushed_bounded(
                old(self).lan_rx_history@,
                CHART_CAP as nat,
                spec_bits_per_sec(spec_rate_delta(lan_rx, old(self).last_lan_rx_bytes), elapsed_ms),
            ),
            final(self).lan_tx_history@ == pushed_bounded(
                old(self).lan_tx_history@,
                CHART_CAP as nat,
                spec_bits_per_sec(spec_rate_delta(lan_tx, old(self).last_lan_tx_bytes), elapsed_ms),
            ),
    {
        let wan_rx_d = wan_rx.saturating_sub(self.last_wan_rx_bytes);
        let wan_tx_d = wan_tx.saturating_sub(self.last_wan_tx_bytes);
        let lan_rx_d = lan_rx.saturating_sub(self.last_lan_rx_bytes);
        let lan_tx_d = lan_tx.saturating_sub(self.last_lan_tx_bytes);
        self.last_wan_rx_bytes = wan_rx;
        self.last_wan_tx_bytes = wan_tx;
        self.last_lan_rx_bytes = lan_rx;
        self.last_lan_tx_bytes = lan_tx;
        push_bounded(&mut self.wan_rx_history, CHART_CAP, bits_per_sec(wan_rx_d, elapsed_ms));
        push_bounded(&mut self.wan_tx_history, CHART_CAP, bits_per_sec(wan_tx_d, elapsed_ms));
        push_bounded(&mut self.lan_rx_history, CHART_CAP, bits_per_sec(lan_rx_d, elapsed_ms));
        push_bounded(&mut self.lan_tx_history, CHART_CAP, bits_per_sec(lan_tx_d, elapsed_ms));
    }

    /// Advance the rotation phase by one tick's step, wrapping after a full
    /// turn.
    pub fn advance_rotation(&mut self)
        requires
            old(self).wf(),
        ensures
            final(self).wf(),
            *final(self) == (Dashboard {
                globe_rotation_micros: spec_next_rotation(old(self).globe_rotation_micros),
                ..*old(self)
            }),
    {
        if self.globe_rotation_micros + ROTATION_STEP > FULL_TURN {
            self.globe_rotation_micros = self.globe_rotation_micros + ROTATION_STEP - FULL_TURN;
        } else {
            self.globe_rotation_micros = self.globe_rotation_micros + ROTATION_STEP;
        }
    }
}

/// Bits per second carried by `delta` bytes over `elapsed_ms` milliseconds.
fn bits_per_sec(delta: u64, elapsed_ms: u64) -> (r: u64)
    requires
        elapsed_ms > 0,
    ensures
        r == spec_bits_per_sec(delta, elapsed_ms),
{
    let wide: u128 = (delta as u128) * 8000 / (elapsed_ms as u128);
    proof {
        assert((delta as int) * 8000 <= u128::MAX) by (nonlinear_arith)
            requires
                delta <= u64::MAX,
        ;
    }
    if wide > u64::MAX as u128 {
        u64::MAX
    } else {
        wide as u64
    }
}

} // verus!

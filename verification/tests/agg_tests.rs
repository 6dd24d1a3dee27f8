use std::collections::VecDeque;

use netwatch::agg::{Dashboard, CHART_CAP, FULL_TURN, ROTATION_STEP};
use netwatch::conn::ConnectionInfo;
use netwatch::hop::{HopStats, MtrResult};
use netwatch::net::IpAddress;
use netwatch::ping::PingResult;

fn ok_ping(seq: u16, time_ms: u64) -> Result<PingResult, String> {
    Ok(PingResult { seq, ttl: 64, time_ms, target: "1.1.1.1".to_string() })
}

#[test]
fn new_dashboard_charts_start_flat() {
    let d = Dashboard::new();
    assert_eq!(d.traffic_history.len(), CHART_CAP);
    assert!(d.traffic_history.iter().all(|v| *v == 0));
    assert_eq!(d.db_ping_history.len(), CHART_CAP);
    assert_eq!(d.ping_history.len(), 0);
    assert_eq!(d.ping_rtt_history.len(), 0);
    assert_eq!(d.sniffer_packets.len(), 0);
    assert_eq!(d.mtr_hops.len(), 0);
    assert_eq!(d.globe_rotation_micros, 0);
}

#[test]
fn ping_results_fill_both_logs() {
    let mut d = Dashboard::new();
    d.on_ping_result(ok_ping(0, 12));
    d.on_ping_result(Err("Ping failed: timeout".to_string()));
    assert_eq!(d.ping_history.len(), 2);
    // only the success charts an RTT
    assert_eq!(d.ping_rtt_history.len(), 1);
    assert_eq!(*d.ping_rtt_history.back().unwrap(), 12);
}

#[test]
fn ping_log_is_bounded_at_fifty() {
    let mut d = Dashboard::new();
    for i in 0..60 {
        d.on_ping_result(ok_ping(i as u16, i));
    }
    assert_eq!(d.ping_history.len(), 50);
    assert_eq!(d.ping_rtt_history.len(), 60.min(100));
    match d.ping_history.front().unwrap() {
        Ok(r) => assert_eq!(r.time_ms, 10),
        Err(_) => panic!("expected a success at the front"),
    }
}

#[test]
fn rate_deltas_saturate_on_counter_reset() {
    let mut d = Dashboard::new();
    d.on_tick_counters(5, 3, 2);
    assert_eq!(*d.traffic_history.back().unwrap(), 5);
    assert_eq!(*d.rx_history.back().unwrap(), 3);
    assert_eq!(*d.tx_history.back().unwrap(), 2);
    // the capture session restarted: counters fell back to zero
    d.on_tick_counters(2, 1, 0);
    assert_eq!(*d.traffic_history.back().unwrap(), 0);
    assert_eq!(*d.rx_history.back().unwrap(), 0);
    assert_eq!(*d.tx_history.back().unwrap(), 0);
    assert_eq!(d.last_packet_count, 2);
    // and keeps counting from there
    d.on_tick_counters(7, 2, 1);
    assert_eq!(*d.traffic_history.back().unwrap(), 5);
}

#[test]
fn bandwidth_in_bits_per_second() {
    let mut d = Dashboard::new();
    // 1_000_000 bytes in 1000 ms = 8_000_000 bits per second
    d.on_tick_bandwidth(1_000_000, 0, 0, 0, 1000);
    assert_eq!(*d.wan_rx_history.back().unwrap(), 8_000_000);
    assert_eq!(*d.wan_tx_history.back().unwrap(), 0);
    // a reset charts zero
    d.on_tick_bandwidth(500, 0, 0, 0, 50);
    assert_eq!(*d.wan_rx_history.back().unwrap(), 0);
}

#[test]
fn background_ping_charts_latency_and_jitter() {
    let mut d = Dashboard::new();
    // the chart is pre-filled with zeros, so the first jitter sample is the
    // round trip itself
    d.on_db_ping(50);
    assert_eq!(*d.db_ping_history.back().unwrap(), 50);
    assert_eq!(*d.db_jitter_history.back().unwrap(), 50);
    d.on_db_ping(42);
    assert_eq!(*d.db_jitter_history.back().unwrap(), 8);
    assert_eq!(d.db_ping_history.len(), CHART_CAP);
}

#[test]
fn rotation_wraps_after_a_full_turn() {
    let mut d = Dashboard::new();
    d.advance_rotation();
    assert_eq!(d.globe_rotation_micros, ROTATION_STEP);
    let mut steps = 1u64;
    while d.globe_rotation_micros + ROTATION_STEP <= FULL_TURN {
        d.advance_rotation();
        steps += 1;
    }
    assert_eq!(d.globe_rotation_micros, steps * ROTATION_STEP);
    d.advance_rotation();
    assert_eq!(d.globe_rotation_micros, (steps + 1) * ROTATION_STEP - FULL_TURN);
    assert!(d.globe_rotation_micros <= FULL_TURN);
}

#[test]
fn trace_results_reach_the_hop_table() {
    let mut d = Dashboard::new();
    let r = MtrResult {
        ttl: 2,
        host: Some(IpAddress::V4(0x0A000001)),
        rtt_ms: 30,
        successful: true,
        is_target: false,
    };
    d.on_mtr_result(&r);
    assert_eq!(d.mtr_hops.len(), 2);
    assert_eq!(d.mtr_hops[1].last, 30);
    assert_eq!(d.mtr_hops[1].host, "10.0.0.1");
}

#[test]
fn saturated_hop_counter_is_left_alone() {
    let mut d = Dashboard::new();
    d.mtr_hops.push(HopStats {
        ttl: 1,
        host: "10.0.0.1".to_string(),
        sent: u64::MAX,
        recv: u64::MAX,
        last: 1,
        best: 1,
        worst: 1,
        avg: 1,
        loss_hundredths: 0,
        history: VecDeque::new(),
        jitter: 0,
    });
    let r = MtrResult {
        ttl: 1,
        host: Some(IpAddress::V4(0x0A000001)),
        rtt_ms: 5,
        successful: true,
        is_target: false,
    };
    d.on_mtr_result(&r);
    assert_eq!(d.mtr_hops[0].sent, u64::MAX);
    assert_eq!(d.mtr_hops[0].last, 1);
}

#[test]
fn connection_snapshot_charts_count() {
    let mut d = Dashboard::new();
    let conns = vec![
        ConnectionInfo {
            remote_ip: IpAddress::V4(0x08080808),
            asn_num: 15169,
            asn_org: "GOOGLE".to_string(),
            last_seen_ms: 0,
            packet_count: 0,
            protocol: "tcp4".to_string(),
            location: None,
        },
    ];
    d.set_connections(conns);
    assert_eq!(d.active_connections.len(), 1);
    assert_eq!(*d.connection_count_history.back().unwrap(), 1);
}

#[test]
fn tool_output_panels_are_bounded() {
    let mut d = Dashboard::new();
    for i in 0..1005 {
        d.on_nmap_line(format!("line {}", i));
    }
    assert_eq!(d.nmap_output.len(), 1000);
    assert_eq!(d.nmap_output.front().unwrap(), "line 5");
    d.on_arpscan_line("192.168.1.7\taa:bb:cc:dd:ee:ff".to_string());
    assert_eq!(d.arpscan_output.len(), 1);
}

use netwatch::hop::{record_result, HopStats, MtrResult, BEST_SENTINEL, RTT_NO_REPLY};
use netwatch::net::IpAddress;

fn success(ttl: u8, rtt_ms: u64) -> MtrResult {
    MtrResult {
        ttl,
        host: Some(IpAddress::V4(0x0A000001)),
        rtt_ms,
        successful: true,
        is_target: false,
    }
}

fn failure(ttl: u8) -> MtrResult {
    MtrResult { ttl, host: None, rtt_ms: RTT_NO_REPLY, successful: false, is_target: false }
}

#[test]
fn three_successes_statistics() {
    let mut hops: Vec<HopStats> = Vec::new();
    record_result(&mut hops, &success(1, 10));
    record_result(&mut hops, &success(1, 20));
    record_result(&mut hops, &success(1, 30));
    assert_eq!(hops.len(), 1);
    let h = &hops[0];
    assert_eq!(h.sent, 3);
    assert_eq!(h.recv, 3);
    assert_eq!(h.best, 10);
    assert_eq!(h.worst, 30);
    assert_eq!(h.avg, 20);
    assert_eq!(h.last, 30);
    assert_eq!(h.loss_hundredths, 0);
    // first sample: |10 - 0| = 10; then ((10*1)+10)/2 = 10; then ((10*2)+10)/3 = 10
    assert_eq!(h.jitter, 10);
    let hist: Vec<u64> = h.history.iter().copied().collect();
    assert_eq!(hist, vec![10, 20, 30]);
}

#[test]
fn failures_only_bump_sent_and_loss() {
    let mut hops: Vec<HopStats> = Vec::new();
    record_result(&mut hops, &success(1, 40));
    record_result(&mut hops, &failure(1));
    let h = &hops[0];
    assert_eq!(h.sent, 2);
    assert_eq!(h.recv, 1);
    // (2 - 1) / 2 * 100% = 50.00%
    assert_eq!(h.loss_hundredths, 5000);
    assert_eq!(h.last, 40);
    assert_eq!(h.best, 40);
}

#[test]
fn table_grows_with_placeholders() {
    let mut hops: Vec<HopStats> = Vec::new();
    record_result(&mut hops, &success(3, 15));
    assert_eq!(hops.len(), 3);
    assert_eq!(hops[0].host, "???");
    assert_eq!(hops[0].sent, 0);
    assert_eq!(hops[0].best, BEST_SENTINEL);
    assert_eq!(hops[1].sent, 0);
    assert_eq!(hops[2].sent, 1);
    assert_eq!(hops[2].host, "10.0.0.1");
}

#[test]
fn unknown_responder_shows_placeholder_host() {
    let mut hops: Vec<HopStats> = Vec::new();
    let r = MtrResult { ttl: 1, host: None, rtt_ms: 5, successful: true, is_target: false };
    record_result(&mut hops, &r);
    assert_eq!(hops[0].host, "???");
    assert_eq!(hops[0].recv, 1);
}

#[test]
fn history_is_bounded_at_one_hundred() {
    let mut hops: Vec<HopStats> = Vec::new();
    for i in 0..150u64 {
        record_result(&mut hops, &success(1, i));
    }
    assert_eq!(hops[0].history.len(), 100);
    // the oldest fifty samples were evicted
    assert_eq!(*hops[0].history.front().unwrap(), 50);
    assert_eq!(*hops[0].history.back().unwrap(), 149);
}

#[test]
fn loss_stays_within_bounds() {
    let mut hops: Vec<HopStats> = Vec::new();
    for i in 0..97u64 {
        if i % 3 == 0 {
            record_result(&mut hops, &success(1, i));
        } else {
            record_result(&mut hops, &failure(1));
        }
        let h = &hops[0];
        assert!(h.recv <= h.sent);
        assert!(h.loss_hundredths <= 10000);
    }
}

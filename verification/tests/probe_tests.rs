use netwatch::hop::RTT_NO_REPLY;
use netwatch::net::IpAddress;
use netwatch::probe::{build_echo_request, make_probe_reply, make_probe_timeout, MtrTask, ProbeCycle};

#[test]
fn echo_request_v4_layout_and_checksum() {
    let p = build_echo_request(true);
    assert_eq!(p.len(), 64);
    assert_eq!(p[0], 8);
    assert_eq!(p[1], 0);
    // the RFC 1071 checksum of 0x0800 followed by zeros is !0x0800 = 0xF7FF
    assert_eq!(p[2], 0xF7);
    assert_eq!(p[3], 0xFF);
    assert!(p[4..].iter().all(|b| *b == 0));
}

#[test]
fn echo_request_v6_leaves_checksum_to_the_stack() {
    let p = build_echo_request(false);
    assert_eq!(p.len(), 64);
    assert_eq!(p[0], 128);
    assert!(p[1..].iter().all(|b| *b == 0));
}

#[test]
fn probe_replies_and_timeouts() {
    let target = IpAddress::V4(0x08080808);
    let r = make_probe_reply(3, Some(IpAddress::V4(0x0A000001)), 12, &target);
    assert!(r.successful);
    assert!(!r.is_target);
    assert_eq!(r.rtt_ms, 12);
    let hit = make_probe_reply(9, Some(target), 25, &target);
    assert!(hit.is_target);
    let t = make_probe_timeout(4);
    assert!(!t.successful);
    assert_eq!(t.host, None);
    assert_eq!(t.rtt_ms, RTT_NO_REPLY);
}

#[test]
fn sweep_walks_ttls_and_ends_at_the_target() {
    let mut c = ProbeCycle::new(3, None);
    assert!(c.begin_cycle());
    assert_eq!(c.next_ttl(), Some(1));
    assert_eq!(c.next_ttl(), Some(2));
    assert_eq!(c.next_ttl(), Some(3));
    assert_eq!(c.next_ttl(), None);
    assert!(c.begin_cycle());
    assert_eq!(c.next_ttl(), Some(1));
    c.on_result(true);
    assert_eq!(c.next_ttl(), None);
}

#[test]
fn cycle_limit_is_honoured() {
    let mut c = ProbeCycle::new(2, Some(2));
    assert!(c.begin_cycle());
    while c.next_ttl().is_some() {}
    assert!(c.begin_cycle());
    while c.next_ttl().is_some() {}
    assert!(!c.begin_cycle());
}

#[test]
fn stop_silences_the_prober() {
    let mut c = ProbeCycle::new(30, None);
    assert!(c.begin_cycle());
    assert_eq!(c.next_ttl(), Some(1));
    c.stop();
    assert_eq!(c.next_ttl(), None);
    assert!(!c.begin_cycle());
}

#[test]
fn task_stop_flag() {
    let mut t = MtrTask::new();
    assert!(!t.should_stop);
    t.stop();
    assert!(t.should_stop);
}

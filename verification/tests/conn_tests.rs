use netwatch::conn::{apply_lookup, fold_snapshot, parse_ipv4, remote_ip_of, ConnectionInfo, RawConnection};
use netwatch::net::IpAddress;

fn raw(remote: &str) -> RawConnection {
    RawConnection {
        protocol: "tcp4".to_string(),
        local_addr: "192.168.1.2.50000".to_string(),
        remote_addr: remote.to_string(),
        state: "ESTABLISHED".to_string(),
    }
}

#[test]
fn dotted_quads() {
    assert_eq!(parse_ipv4(b"1.2.3.4"), Some(0x01020304));
    assert_eq!(parse_ipv4(b"255.255.255.255"), Some(0xFFFFFFFF));
    assert_eq!(parse_ipv4(b"0.0.0.0"), Some(0));
    assert_eq!(parse_ipv4(b"256.1.1.1"), None);
    assert_eq!(parse_ipv4(b"01.2.3.4"), None);
    assert_eq!(parse_ipv4(b"1.2.3"), None);
    assert_eq!(parse_ipv4(b"1.2.3.4.5"), None);
    assert_eq!(parse_ipv4(b""), None);
    assert_eq!(parse_ipv4(b"a.b.c.d"), None);
}

#[test]
fn remote_endpoint_extraction() {
    // the port is whatever follows the last separator
    assert_eq!(remote_ip_of(b"8.8.8.8.443"), Some(0x08080808));
    assert_eq!(remote_ip_of(b"192.168.0.1:8080"), Some(0xC0A80001));
    assert_eq!(remote_ip_of(b"8.8.8.8"), None);
    assert_eq!(remote_ip_of(b"*.*"), None);
    // an IPv6 endpoint does not survive the rewrite
    assert_eq!(remote_ip_of(b"2001:db8::1.443"), None);
}

#[test]
fn snapshot_carry_forward_avoids_second_lookup() {
    let prev: Vec<ConnectionInfo> = Vec::new();
    let snapshot1 = vec![raw("8.8.8.8.443")];
    let (mut conns, need) = fold_snapshot(&prev, &snapshot1, 1000);
    assert_eq!(conns.len(), 1);
    assert_eq!(need, vec![0]);
    assert_eq!(conns[0].remote_ip, IpAddress::V4(0x08080808));
    assert_eq!(conns[0].asn_num, 0);
    assert_eq!(conns[0].asn_org, "-");
    assert_eq!(conns[0].location, None);
    assert_eq!(conns[0].last_seen_ms, 1000);

    // the lookup the first snapshot asked for
    apply_lookup(&mut conns, 0, 15169, "GOOGLE".to_string(), Some((38000000, -97000000)));

    // the same address in the next snapshot keeps the resolved data and
    // asks for nothing
    let snapshot2 = vec![raw("8.8.8.8.443"), raw("9.9.9.9.53")];
    let (conns2, need2) = fold_snapshot(&conns, &snapshot2, 3000);
    assert_eq!(conns2.len(), 2);
    assert_eq!(need2.len(), 1);
    let kept = conns2.iter().find(|c| c.remote_ip == IpAddress::V4(0x08080808)).unwrap();
    assert_eq!(kept.asn_num, 15169);
    assert_eq!(kept.asn_org, "GOOGLE");
    assert_eq!(kept.location, Some((38000000, -97000000)));
    assert_eq!(kept.last_seen_ms, 3000);
    let fresh = &conns2[need2[0]];
    assert_eq!(fresh.remote_ip, IpAddress::V4(0x09090909));
    assert_eq!(fresh.asn_num, 0);
}

#[test]
fn snapshot_drops_loopback_and_unspecified() {
    let prev: Vec<ConnectionInfo> = Vec::new();
    let snapshot = vec![raw("127.0.0.1.631"), raw("0.0.0.0.0"), raw("8.8.4.4.53")];
    let (conns, _) = fold_snapshot(&prev, &snapshot, 0);
    assert_eq!(conns.len(), 1);
    assert_eq!(conns[0].remote_ip, IpAddress::V4(0x08080404));
}

#[test]
fn snapshot_deduplicates_addresses() {
    let prev: Vec<ConnectionInfo> = Vec::new();
    let snapshot = vec![raw("8.8.8.8.443"), raw("8.8.8.8.853")];
    let (conns, need) = fold_snapshot(&prev, &snapshot, 0);
    assert_eq!(conns.len(), 1);
    assert_eq!(need.len(), 1);
}

#[test]
fn addresses_gone_from_the_snapshot_are_dropped() {
    let prev: Vec<ConnectionInfo> = Vec::new();
    let (mut conns, _) = fold_snapshot(&prev, &vec![raw("8.8.8.8.443")], 0);
    apply_lookup(&mut conns, 0, 15169, "GOOGLE".to_string(), None);
    let (conns2, _) = fold_snapshot(&conns, &vec![raw("9.9.9.9.53")], 0);
    assert_eq!(conns2.len(), 1);
    assert_eq!(conns2[0].remote_ip, IpAddress::V4(0x09090909));
}

#[test]
fn loopback_and_unspecified_addresses() {
    assert!(IpAddress::V4(0x7F000001).is_loopback());
    assert!(!IpAddress::V4(0x08080808).is_loopback());
    assert!(IpAddress::V4(0).is_unspecified());
    assert!(IpAddress::V6(1).is_loopback());
    assert!(IpAddress::V6(0).is_unspecified());
}

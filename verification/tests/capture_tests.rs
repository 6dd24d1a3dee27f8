use netwatch::capture::{LocalNets, Sniffer};

// 192.168.1.1/24 bound locally
fn test_nets() -> LocalNets {
    LocalNets { v4: vec![(0xC0A80101, 0xFFFFFF00)], v6: vec![1] }
}

fn ipv4_frame(src: u32, dst: u32, proto: u8, payload: &[u8]) -> Vec<u8> {
    let mut f = vec![0u8; 14];
    f[12] = 0x08;
    f[13] = 0x00;
    let total: u16 = 20 + payload.len() as u16;
    let mut ip = vec![0u8; 20];
    ip[0] = 0x45;
    ip[2] = (total >> 8) as u8;
    ip[3] = (total & 0xff) as u8;
    ip[9] = proto;
    ip[12..16].copy_from_slice(&src.to_be_bytes());
    ip[16..20].copy_from_slice(&dst.to_be_bytes());
    f.extend_from_slice(&ip);
    f.extend_from_slice(payload);
    f
}

fn tcp_payload(sport: u16, dport: u16, seq: u32) -> Vec<u8> {
    let mut p = vec![0u8; 20];
    p[0..2].copy_from_slice(&sport.to_be_bytes());
    p[2..4].copy_from_slice(&dport.to_be_bytes());
    p[4..8].copy_from_slice(&seq.to_be_bytes());
    p
}

#[test]
fn inbound_from_subnet_counts_as_lan() {
    let nets = test_nets();
    let mut s = Sniffer::new();
    // destination is the bound address, source is inside its subnet
    let f = ipv4_frame(0xC0A80132, 0xC0A80101, 6, &tcp_payload(80, 443, 1));
    let out = s.process_frame(&f, &nets, b"", 0, 0, 0);
    assert!(out.is_some());
    assert_eq!(s.packet_count, 1);
    assert_eq!(s.in_packets, 1);
    assert_eq!(s.out_packets, 0);
    assert_eq!(s.lan_in_bytes, f.len() as u64);
    assert_eq!(s.wan_in_bytes, 0);
    assert_eq!(s.tcp_packets, 1);
}

#[test]
fn inbound_from_outside_counts_as_wan() {
    let nets = test_nets();
    let mut s = Sniffer::new();
    // destination local, source 8.8.8.8: outside every bound subnet
    let f = ipv4_frame(0x08080808, 0xC0A80101, 17, &[0, 53, 0, 53, 0, 8, 0, 0]);
    s.process_frame(&f, &nets, b"", 0, 0, 0);
    assert_eq!(s.in_packets, 1);
    assert_eq!(s.wan_in_bytes, f.len() as u64);
    assert_eq!(s.lan_in_bytes, 0);
    assert_eq!(s.udp_packets, 1);
}

#[test]
fn outbound_to_outside_counts_as_wan() {
    let nets = test_nets();
    let mut s = Sniffer::new();
    let f = ipv4_frame(0xC0A80101, 0x08080808, 6, &tcp_payload(50000, 443, 7));
    s.process_frame(&f, &nets, b"", 0, 0, 0);
    assert_eq!(s.out_packets, 1);
    assert_eq!(s.in_packets, 0);
    assert_eq!(s.wan_out_bytes, f.len() as u64);
    assert_eq!(s.lan_out_bytes, 0);
}

#[test]
fn outbound_within_subnet_counts_as_lan() {
    let nets = test_nets();
    let mut s = Sniffer::new();
    let f = ipv4_frame(0xC0A80101, 0xC0A801FE, 6, &tcp_payload(22, 55555, 9));
    s.process_frame(&f, &nets, b"", 0, 0, 0);
    assert_eq!(s.out_packets, 1);
    assert_eq!(s.lan_out_bytes, f.len() as u64);
    assert_eq!(s.wan_out_bytes, 0);
}

#[test]
fn counters_update_even_when_filter_rejects() {
    let nets = test_nets();
    let mut s = Sniffer::new();
    let f = ipv4_frame(0x08080808, 0xC0A80101, 6, &tcp_payload(80, 443, 1));
    let out = s.process_frame(&f, &nets, b"nothing-matches-this", 0, 0, 0);
    assert!(out.is_none());
    assert_eq!(s.packet_count, 1);
    assert_eq!(s.in_packets, 1);
    assert_eq!(s.tcp_packets, 1);
}

#[test]
fn filter_is_case_insensitive_and_reads_every_field() {
    let nets = test_nets();
    let mut s = Sniffer::new();
    let f = ipv4_frame(0x08080808, 0xC0A80101, 6, &tcp_payload(80, 443, 1));
    // protocol field, different cases
    assert!(s.process_frame(&f, &nets, b"tcp", 0, 0, 0).is_some());
    assert!(s.process_frame(&f, &nets, b"TCP", 0, 0, 0).is_some());
    assert!(s.process_frame(&f, &nets, b"Tcp", 0, 0, 0).is_some());
    // source address field
    assert!(s.process_frame(&f, &nets, b"8.8.8.8", 0, 0, 0).is_some());
    // destination address field
    assert!(s.process_frame(&f, &nets, b"192.168.1.1", 0, 0, 0).is_some());
    // detail field
    assert!(s.process_frame(&f, &nets, b"[seq=1]", 0, 0, 0).is_some());
    // empty filter matches everything
    assert!(s.process_frame(&f, &nets, b"", 0, 0, 0).is_some());
    // no field holds this
    assert!(s.process_frame(&f, &nets, b"10.9.9.9", 0, 0, 0).is_none());
}

#[test]
fn tcp_summary_fields() {
    let nets = test_nets();
    let mut s = Sniffer::new();
    let f = ipv4_frame(0x08080808, 0xC0A80101, 6, &tcp_payload(80, 443, 12345));
    let ps = s.process_frame(&f, &nets, b"", 4, 5, 6).unwrap();
    assert_eq!(ps.time, "04:05:06");
    assert_eq!(ps.source, "8.8.8.8");
    assert_eq!(ps.destination, "192.168.1.1");
    assert_eq!(ps.protocol, "TCP");
    assert_eq!(ps.length, "40");
    assert_eq!(ps.info, "80 -> 443 [Seq=12345]");
}

#[test]
fn udp_summary_shows_ports_and_length() {
    let nets = test_nets();
    let mut s = Sniffer::new();
    let mut payload = vec![0u8; 8];
    payload[0..2].copy_from_slice(&5353u16.to_be_bytes());
    payload[2..4].copy_from_slice(&5353u16.to_be_bytes());
    payload[4..6].copy_from_slice(&8u16.to_be_bytes());
    let f = ipv4_frame(0x08080808, 0xC0A80101, 17, &payload);
    let ps = s.process_frame(&f, &nets, b"", 0, 0, 0).unwrap();
    assert_eq!(ps.protocol, "UDP");
    assert_eq!(ps.info, "5353 -> 5353 [Len=8]");
}

#[test]
fn icmp_summary_shows_type_and_code() {
    let nets = test_nets();
    let mut s = Sniffer::new();
    let f = ipv4_frame(0x08080808, 0xC0A80101, 1, &[8, 0, 0, 0]);
    let ps = s.process_frame(&f, &nets, b"", 0, 0, 0).unwrap();
    assert_eq!(ps.protocol, "ICMP");
    assert_eq!(ps.info, "Type=8 Code=0");
}

#[test]
fn short_tcp_payload_is_malformed() {
    let nets = test_nets();
    let mut s = Sniffer::new();
    let f = ipv4_frame(0x08080808, 0xC0A80101, 6, &[0, 80]);
    let ps = s.process_frame(&f, &nets, b"", 0, 0, 0).unwrap();
    assert_eq!(ps.info, "Malformed TCP");
}

#[test]
fn other_protocol_is_unknown_l4() {
    let nets = test_nets();
    let mut s = Sniffer::new();
    let f = ipv4_frame(0x08080808, 0xC0A80101, 47, &[]);
    let ps = s.process_frame(&f, &nets, b"", 0, 0, 0).unwrap();
    assert_eq!(ps.protocol, "IPv4");
    assert_eq!(ps.info, "Unknown L4");
}

#[test]
fn ipv6_frame_direction_and_summary() {
    let nets = test_nets();
    let mut s = Sniffer::new();
    // 54-byte minimum: 14 ethernet + 40 ipv6 header
    let mut f = vec![0u8; 54];
    f[12] = 0x86;
    f[13] = 0xdd;
    f[18] = 0;
    f[19] = 32;  // payload length 32
    f[20] = 58;  // ICMPv6
    // source ::2, destination ::1 (bound locally)
    f[37] = 2;
    f[53] = 1;
    let ps = s.process_frame(&f, &nets, b"", 0, 0, 0).unwrap();
    assert_eq!(s.in_packets, 1);
    // IPv6 defaults to WAN
    assert_eq!(s.wan_in_bytes, 54);
    assert_eq!(ps.protocol, "ICMPv6");
    assert_eq!(ps.source, "0:0:0:0:0:0:0:2");
    assert_eq!(ps.destination, "0:0:0:0:0:0:0:1");
    assert_eq!(ps.length, "32");
    // IPv6 carries no per-protocol counters
    assert_eq!(s.tcp_packets, 0);
}

#[test]
fn non_ip_frame_yields_no_summary_but_counts() {
    let nets = test_nets();
    let mut s = Sniffer::new();
    let mut f = vec![0u8; 60];
    f[12] = 0x08;
    f[13] = 0x06;  // ARP
    let out = s.process_frame(&f, &nets, b"", 0, 0, 0);
    assert!(out.is_none());
    assert_eq!(s.packet_count, 1);
    assert_eq!(s.out_packets, 1);
    assert_eq!(s.wan_out_bytes, 60);
}

#[test]
fn stop_sets_flag_and_keeps_counters() {
    let nets = test_nets();
    let mut s = Sniffer::new();
    let f = ipv4_frame(0x08080808, 0xC0A80101, 6, &tcp_payload(80, 443, 1));
    s.process_frame(&f, &nets, b"", 0, 0, 0);
    assert!(!s.should_stop);
    s.stop();
    assert!(s.should_stop);
    assert_eq!(s.packet_count, 1);
}

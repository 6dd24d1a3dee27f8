use netwatch::dns::{DnsRecord, DnsResult};
use netwatch::filter::{contains_case_insensitive, fold_ascii_lower};
use netwatch::screen::{get_tool_options, CurrentScreen, DnsRecordKind};
use netwatch::strfmt::{fmt_hex_u64, fmt_ip, fmt_ipv4, fmt_ipv6, fmt_time, fmt_u64, fmt_u64_pad2};
use netwatch::net::IpAddress;

#[test]
fn decimal_formatting() {
    assert_eq!(fmt_u64(0), "0");
    assert_eq!(fmt_u64(7), "7");
    assert_eq!(fmt_u64(1234567890), "1234567890");
    assert_eq!(fmt_u64(u64::MAX), "18446744073709551615");
    assert_eq!(fmt_u64_pad2(5), "05");
    assert_eq!(fmt_u64_pad2(59), "59");
}

#[test]
fn hexadecimal_formatting() {
    assert_eq!(fmt_hex_u64(0), "0");
    assert_eq!(fmt_hex_u64(0xdead), "dead");
    assert_eq!(fmt_hex_u64(0xFFFF), "ffff");
}

#[test]
fn address_formatting() {
    assert_eq!(fmt_ipv4(0x01020304), "1.2.3.4");
    assert_eq!(fmt_ipv4(0xFFFFFFFF), "255.255.255.255");
    assert_eq!(fmt_ipv6(1), "0:0:0:0:0:0:0:1");
    assert_eq!(
        fmt_ipv6(0x20010db8000000000000000000000001),
        "2001:db8:0:0:0:0:0:1"
    );
    assert_eq!(fmt_ip(&IpAddress::V4(0x0A000001)), "10.0.0.1");
}

#[test]
fn clock_formatting() {
    assert_eq!(fmt_time(0, 0, 0), "00:00:00");
    assert_eq!(fmt_time(23, 5, 59), "23:05:59");
}

#[test]
fn case_insensitive_containment() {
    assert!(contains_case_insensitive(b"Hello World", b"WORLD"));
    assert!(contains_case_insensitive(b"Hello World", b"o w"));
    assert!(!contains_case_insensitive(b"Hello World", b"xyz"));
    assert!(contains_case_insensitive(b"anything", b""));
    assert!(!contains_case_insensitive(b"", b"a"));
    assert_eq!(fold_ascii_lower(b"AbC-123"), b"abc-123".to_vec());
}

#[test]
fn dns_record_kinds_cycle() {
    let mut k = DnsRecordKind::A;
    let expected = [
        DnsRecordKind::Aaaa,
        DnsRecordKind::Mx,
        DnsRecordKind::Txt,
        DnsRecordKind::Ns,
        DnsRecordKind::A,
    ];
    for e in expected {
        k = k.next_dns_record_type();
        assert_eq!(k, e);
    }
}

#[test]
fn dns_results_group_records_by_type() {
    let recs = vec![DnsRecord { value: "93.184.216.34".to_string(), ttl: 300 }];
    match DnsResult::A(recs) {
        DnsResult::A(v) => {
            assert_eq!(v.len(), 1);
            assert_eq!(v[0].value, "93.184.216.34");
            assert_eq!(v[0].ttl, 300);
        }
        _ => panic!("expected an A result"),
    }
}

#[test]
fn tool_options_per_screen() {
    assert_eq!(get_tool_options(&CurrentScreen::Ping).len(), 3);
    assert_eq!(get_tool_options(&CurrentScreen::Mtr).len(), 3);
    assert_eq!(get_tool_options(&CurrentScreen::Nmap).len(), 5);
    assert_eq!(get_tool_options(&CurrentScreen::ArpScan).len(), 4);
    assert_eq!(get_tool_options(&CurrentScreen::Dashboard).len(), 0);
    let mtr = get_tool_options(&CurrentScreen::Mtr);
    assert_eq!(mtr[1].0, "-m");
}

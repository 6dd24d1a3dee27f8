use netwatch::args::{parse_mtr_args, parse_ping_args, parse_secs_to_ms, parse_u64, parse_u8, tokenize};

#[test]
fn mtr_args_full_line() {
    let a = parse_mtr_args(b"example.com -i 0.5 -m 10 -c 3").unwrap();
    assert_eq!(a.host, b"example.com".to_vec());
    assert_eq!(a.interval_ms, 500);
    assert_eq!(a.max_hops, 10);
    assert_eq!(a.count, Some(3));
}

#[test]
fn mtr_args_defaults() {
    let a = parse_mtr_args(b"10.0.0.1").unwrap();
    assert_eq!(a.host, b"10.0.0.1".to_vec());
    assert_eq!(a.interval_ms, 1000);
    assert_eq!(a.max_hops, 30);
    assert_eq!(a.count, None);
}

#[test]
fn mtr_args_without_host_is_rejected() {
    assert!(parse_mtr_args(b"").is_none());
    assert!(parse_mtr_args(b"   ").is_none());
    assert!(parse_mtr_args(b"-i 0.5 -m 10").is_none());
}

#[test]
fn mtr_args_bad_values_are_ignored() {
    // 300 does not fit a hop count; "fast" is not a number
    let a = parse_mtr_args(b"-m 300 -i fast host").unwrap();
    assert_eq!(a.max_hops, 30);
    assert_eq!(a.interval_ms, 1000);
    assert_eq!(a.host, b"host".to_vec());
}

#[test]
fn mtr_args_trailing_flag_without_value() {
    let a = parse_mtr_args(b"host -i").unwrap();
    assert_eq!(a.interval_ms, 1000);
}

#[test]
fn mtr_args_unknown_dash_word_is_skipped() {
    let a = parse_mtr_args(b"-x host").unwrap();
    assert_eq!(a.host, b"host".to_vec());
}

#[test]
fn mtr_args_last_host_wins() {
    let a = parse_mtr_args(b"first second").unwrap();
    assert_eq!(a.host, b"second".to_vec());
}

#[test]
fn ping_args_full_line() {
    let a = parse_ping_args(b"1.1.1.1 -i 0.2 -s 128 -c 5").unwrap();
    assert_eq!(a.host, b"1.1.1.1".to_vec());
    assert_eq!(a.interval_ms, 200);
    assert_eq!(a.payload_size, 128);
    assert_eq!(a.count, Some(5));
}

#[test]
fn ping_args_without_host_is_rejected() {
    assert!(parse_ping_args(b"-s 64").is_none());
}

#[test]
fn seconds_parsing_shapes() {
    assert_eq!(parse_secs_to_ms(b"1"), Some(1000));
    assert_eq!(parse_secs_to_ms(b"0.5"), Some(500));
    assert_eq!(parse_secs_to_ms(b"2."), Some(2000));
    assert_eq!(parse_secs_to_ms(b".25"), Some(250));
    assert_eq!(parse_secs_to_ms(b"1.2345"), Some(1234));
    assert_eq!(parse_secs_to_ms(b""), None);
    assert_eq!(parse_secs_to_ms(b"."), None);
    assert_eq!(parse_secs_to_ms(b"1.2.3"), None);
    assert_eq!(parse_secs_to_ms(b"1a"), None);
}

#[test]
fn integer_parsing() {
    assert_eq!(parse_u64(b"0"), Some(0));
    assert_eq!(parse_u64(b"18446744073709551615"), Some(u64::MAX));
    assert_eq!(parse_u64(b"18446744073709551616"), None);
    assert_eq!(parse_u64(b""), None);
    assert_eq!(parse_u64(b"12x"), None);
    assert_eq!(parse_u8(b"255"), Some(255));
    assert_eq!(parse_u8(b"256"), None);
}

#[test]
fn tokenizing_splits_on_whitespace_runs() {
    let toks = tokenize(b"  a bb\t ccc \n");
    let toks: Vec<Vec<u8>> = toks;
    assert_eq!(toks.len(), 3);
    assert_eq!(toks[0], b"a".to_vec());
    assert_eq!(toks[1], b"bb".to_vec());
    assert_eq!(toks[2], b"ccc".to_vec());
}

//! Verified text formatting.
//!
//! The capture and probe panels show numbers, addresses and clock times as
//! text.  Each formatter here has a spec-level counterpart giving the exact
//! character sequence produced.

use vstd::prelude::*;

verus! {

/// The decimal digit character for a value below ten.
pub open spec fn spec_digit(d: int) -> char {
    if d == 0 {
        '0'
    } else if d == 1 {
        '1'
    } else if d == 2 {
        '2'
    } else if d == 3 {
        '3'
    } else if d == 4 {
        '4'
    } else if d == 5 {
        '5'
    } else if d == 6 {
        '6'
    } else if d == 7 {
        '7'
    } else if d == 8 {
        '8'
    } else {
        '9'
    }
}

/// The decimal representation of `n`, without leading zeros (just "0" for 0).
pub open spec fn spec_dec(n: nat) -> Seq<char>
    decreases n,
{
    if n < 10 {
        seq![spec_digit(n as int)]
    } else {
        spec_dec(n / 10).push(spec_digit((n % 10) as int))
    }
}

/// The hexadecimal digit character for a value below sixteen, lower case.
pub open spec fn spec_hex_digit(d: int) -> char {
    if d < 10 {
        spec_digit(d)
    } else if d == 10 {
        'a'
    } else if d == 11 {
        'b'
    } else if d == 12 {
        'c'
    } else if d == 13 {
        'd'
    } else if d == 14 {
        'e'
    } else {
        'f'
    }
}

/// The lower-case hexadecimal representation of `n`, without leading zeros.
pub open spec fn spec_hex(n: nat) -> Seq<char>
    decreases n,
{
    if n < 16 {
        seq![spec_hex_digit(n as int)]
    } else {
        spec_hex(n / 16).push(spec_hex_digit((n % 16) as int))
    }
}

fn digit_str(d: u64) -> (r: &'static str)
    requires
        d < 10,
    ensures
        r@ == seq![spec_digit(d as int)],
{
    proof {
        reveal_strlit("0");
        reveal_strlit("1");
        reveal_strlit("2");
        reveal_strlit("3");
        reveal_strlit("4");
        reveal_strlit("5");
        reveal_strlit("6");
        reveal_strlit("7");
        reveal_strlit("8");
        reveal_strlit("9");
    }
    match d {
        0 => "0",
        1 => "1",
        2 => "2",
        3 => "3",
        4 => "4",
        5 => "5",
        6 => "6",
        7 => "7",
        8 => "8",
        _ => "9",
    }
}

fn hex_digit_str(d: u64) -> (r: &'static str)
    requires
        d < 16,
    ensures
        r@ == seq![spec_hex_digit(d as int)],
{
    proof {
        reveal_strlit("a");
        reveal_strlit("b");
        reveal_strlit("c");
        reveal_strlit("d");
        reveal_strlit("e");
        reveal_strlit("f");
    }
    if d < 10 {
        digit_str(d)
    } else {
        match d {
            10 => "a",
            11 => "b",
            12 => "c",
            13 => "d",
            14 => "e",
            _ => "f",
        }
    }
}

/// Format `n` in decimal.
pub fn fmt_u64(n: u64) -> (s: String)
    ensures
        s@ == spec_dec(n as nat),
    decreases n,
{
    if n < 10 {
        digit_str(n).to_owned()
    } else {
        let mut s = fmt_u64(n / 10);
        s.append(digit_str(n % 10));
        s
    }
}

/// Format `n` in lower-case hexadecimal.
pub fn fmt_hex_u64(n: u64) -> (s: String)
    ensures
        s@ == spec_hex(n as nat),
    decreases n,
{
    if n < 16 {
        hex_digit_str(n).to_owned()
    } else {
        let mut s = fmt_hex_u64(n / 16);
        s.append(hex_digit_str(n % 16));
        s
    }
}

/// `n` in decimal, padded on the left with one zero when below ten.
pub open spec fn spec_dec2(n: nat) -> Seq<char> {
    if n < 10 {
        seq!['0'].add(spec_dec(n))
    } else {
        spec_dec(n)
    }
}

/// Format `n` in decimal with at least two digits, as clock fields are shown.
pub fn fmt_u64_pad2(n: u64) -> (s: String)
    ensures
        s@ == spec_dec2(n as nat),
{
    if n < 10 {
        proof {
            reveal_strlit("0");
        }
        let mut s: String = "0".to_owned();
        s.append(digit_str(n));
        s
    } else {
        fmt_u64(n)
    }
}

/// The dotted-quad form of an IPv4 address value.
pub open spec fn spec_ipv4_text(ip: u32) -> Seq<char> {
    spec_dec((ip >> 24) as nat).push('.').add(spec_dec(((ip >> 16) & 0xff) as nat)).push('.').add(
        spec_dec(((ip >> 8) & 0xff) as nat),
    ).push('.').add(spec_dec((ip & 0xff) as nat))
}

/// Format an IPv4 address as a dotted quad.
pub fn fmt_ipv4(ip: u32) -> (s: String)
    ensures
        s@ == spec_ipv4_text(ip),
{
    proof {
        reveal_strlit(".");
    }
    let mut s = fmt_u64((ip >> 24) as u64);
    s.append(".");
    s.append(fmt_u64(((ip >> 16) & 0xff) as u64).as_str());
    s.append(".");
    s.append(fmt_u64(((ip >> 8) & 0xff) as u64).as_str());
    s.append(".");
    s.append(fmt_u64((ip & 0xff) as u64).as_str());
    s
}

/// One 16-bit group of an IPv6 address.
pub open spec fn spec_ipv6_group(ip: u128, i: int) -> nat {
    ((ip >> ((112 - 16 * i) as u128)) & 0xffff) as nat
}

/// The text of an IPv6 address: all eight groups in lower-case hexadecimal,
/// separated by colons.  Groups are written in full; runs of zero groups are
/// not abbreviated with `::`.
pub open spec fn spec_ipv6_text(ip: u128) -> Seq<char> {
    spec_hex(spec_ipv6_group(ip, 0)).push(':').add(spec_hex(spec_ipv6_group(ip, 1))).push(
        ':',
    ).add(spec_hex(spec_ipv6_group(ip, 2))).push(':').add(spec_hex(spec_ipv6_group(ip, 3))).push(
        ':',
    ).add(spec_hex(spec_ipv6_group(ip, 4))).push(':').add(spec_hex(spec_ipv6_group(ip, 5))).push(
        ':',
    ).add(spec_hex(spec_ipv6_group(ip, 6))).push(':').add(spec_hex(spec_ipv6_group(ip, 7)))
}

/// Extract the `i`-th 16-bit group of an IPv6 address, most significant
/// first.
fn ipv6_group_at(ip: u128, i: u32) -> (g: u64)
    requires
        i < 8,
    ensures
        g as nat == spec_ipv6_group(ip, i as int),
        g <= 0xffff,
{
    let shift: u128 = (112 - 16 * i) as u128;
    let g128: u128 = (ip >> shift) & 0xffff;
    proof {
        let sh = shift;
        assert((ip >> sh) & 0xffff <= 0xffff) by (bit_vector);
    }
    g128 as u64
}

/// Format an IPv6 address, eight hexadecimal groups separated by colons.
pub fn fmt_ipv6(ip: u128) -> (s: String)
    ensures
        s@ == spec_ipv6_text(ip),
{
    proof {
        reveal_strlit(":");
    }
    let mut s = fmt_hex_u64(ipv6_group_at(ip, 0));
    let mut i: u32 = 1;
    while i < 8
        invariant
            1 <= i <= 8,
            s@ == spec_ipv6_prefix(ip, i as int),
        decreases 8 - i,
    {
        proof {
            reveal_strlit(":");
        }
        s.append(":");
        let piece = fmt_hex_u64(ipv6_group_at(ip, i));
        s.append(piece.as_str());
        i = i + 1;
        assert(s@ =~= spec_ipv6_prefix(ip, i as int));
    }
    proof {
        lemma_ipv6_prefix_full(ip);
    }
    s
}

/// The first `k` groups of the IPv6 text.
pub open spec fn spec_ipv6_prefix(ip: u128, k: int) -> Seq<char>
    decreases k,
{
    if k <= 1 {
        spec_hex(spec_ipv6_group(ip, 0))
    } else {
        spec_ipv6_prefix(ip, k - 1).push(':').add(spec_hex(spec_ipv6_group(ip, k - 1)))
    }
}

proof fn lemma_ipv6_prefix_full(ip: u128)
    ensures
        spec_ipv6_prefix(ip, 8) == spec_ipv6_text(ip),
{
    reveal_with_fuel(spec_ipv6_prefix, 9);
    assert(spec_ipv6_prefix(ip, 8) =~= spec_ipv6_text(ip));
}

/// The text of a network address.
pub open spec fn spec_ip_text(ip: crate::net::IpAddress) -> Seq<char> {
    match ip {
        crate::net::IpAddress::V4(v) => spec_ipv4_text(v),
        crate::net::IpAddress::V6(v) => spec_ipv6_text(v),
    }
}

/// Format a network address.
pub fn fmt_ip(ip: &crate::net::IpAddress) -> (s: String)
    ensures
        s@ == spec_ip_text(*ip),
{
    match ip {
        crate::net::IpAddress::V4(v) => fmt_ipv4(*v),
        crate::net::IpAddress::V6(v) => fmt_ipv6(*v),
    }
}

/// The clock-time text `HH:MM:SS` for the given fields.
pub open spec fn spec_time_text(h: nat, m: nat, s: nat) -> Seq<char> {
    spec_dec2(h).push(':').add(spec_dec2(m)).push(':').add(spec_dec2(s))
}

/// Format a wall-clock time of day as `HH:MM:SS`.
pub fn fmt_time(h: u8, m: u8, s: u8) -> (t: String)
    ensures
        t@ == spec_time_text(h as nat, m as nat, s as nat),
{
    proof {
        reveal_strlit(":");
    }
    let mut t = fmt_u64_pad2(h as u64);
    t.append(":");
    t.append(fmt_u64_pad2(m as u64).as_str());
    t.append(":");
    t.append(fmt_u64_pad2(s as u64).as_str());
    t
}

} // verus!

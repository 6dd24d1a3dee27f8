//! Human-readable summaries of captured frames.
//!
//! Each IPv4 or IPv6 frame becomes one [`PacketSummary`]: textual addresses,
//! a protocol label, the length field of the network header, and a
//! protocol-specific detail line (ports and sequence number for TCP, ports
//! and datagram length for UDP, type and code for ICMP).  Frames that carry
//! neither IPv4 nor IPv6 produce no summary.
//!
//! The upper-layer header is located exactly as the capture stack hands it
//! over: the IPv4 payload starts after the options (at least 20 bytes into
//! the header) and extends for `total_length - 4 * header_length` bytes,
//! clamped to the frame.

use vstd::prelude::*;
use crate::capture::{
    spec_be16, spec_be32, spec_be128, spec_is_ipv4_frame, spec_is_ipv6_frame, spec_ipv4_proto,
    spec_ipv4_src, spec_ipv4_dst, read_be16, read_be32, read_be128, PROTO_ICMP, PROTO_ICMPV6,
    PROTO_TCP, PROTO_UDP,
};
use crate::strfmt::{fmt_ipv4, fmt_ipv6, fmt_time, fmt_u64, spec_dec, spec_ipv4_text, spec_ipv6_text, spec_time_text};

verus! {

/// One classified captured frame, as shown in the capture panel.
#[derive(Debug, Clone)]
pub struct PacketSummary {
    pub time: String,
    pub source: String,
    pub destination: String,
    pub protocol: String,
    pub length: String,
    pub info: String,
}

/// Start of the IPv4 payload within the frame: past the Ethernet header and
/// the IPv4 header including options (never less than 20 bytes of header).
pub open spec fn spec_ipv4_payload_start(f: Seq<u8>) -> int {
    let ihl = (f[14] & 0x0f) as int;
    if 4 * ihl < 20 {
        34int
    } else {
        14 + 4 * ihl
    }
}

/// Length of the IPv4 payload as declared by the header: the total length
/// minus four times the header length, never negative.
pub open spec fn spec_ipv4_payload_len(f: Seq<u8>) -> int {
    let ihl = (f[14] & 0x0f) as int;
    let total = spec_be16(f, 16) as int;
    if total - 4 * ihl < 0 {
        0
    } else {
        total - 4 * ihl
    }
}

/// The IPv4 payload bytes: from the payload start for the declared length,
/// clamped to the frame; empty if the declared start lies past the frame.
pub open spec fn spec_ipv4_payload(f: Seq<u8>) -> Seq<u8> {
    let start = spec_ipv4_payload_start(f);
    let end = if start + spec_ipv4_payload_len(f) > f.len() {
        f.len() as int
    } else {
        start + spec_ipv4_payload_len(f)
    };
    if start >= f.len() {
        Seq::<u8>::empty()
    } else {
        f.subrange(start, end)
    }
}

pub open spec fn spec_arrow_text() -> Seq<char> {
    seq![' ', '-', '>', ' ']
}

/// Detail line of a TCP segment: `src -> dst [Seq=n]`.
pub open spec fn spec_tcp_info(p: Seq<u8>) -> Seq<char> {
    spec_dec(spec_be16(p, 0)) + spec_arrow_text() + spec_dec(spec_be16(p, 2)) + seq![
        ' ',
        '[',
        'S',
        'e',
        'q',
        '=',
    ] + spec_dec(spec_be32(p, 4)) + seq![']']
}

/// Detail line of a UDP datagram: `src -> dst [Len=n]`.
pub open spec fn spec_udp_info(p: Seq<u8>) -> Seq<char> {
    spec_dec(spec_be16(p, 0)) + spec_arrow_text() + spec_dec(spec_be16(p, 2)) + seq![
        ' ',
        '[',
        'L',
        'e',
        'n',
        '=',
    ] + spec_dec(spec_be16(p, 4)) + seq![']']
}

/// Detail line of an ICMP message: `Type=t Code=c`.
pub open spec fn spec_icmp_info(p: Seq<u8>) -> Seq<char> {
    seq!['T', 'y', 'p', 'e', '='] + spec_dec(p[0] as nat) + seq![' ', 'C', 'o', 'd', 'e', '=']
        + spec_dec(p[1] as nat)
}

/// The protocol label of a summarized frame.
pub open spec fn spec_summary_protocol(f: Seq<u8>) -> Seq<char> {
    if spec_is_ipv4_frame(f) {
        let proto = spec_ipv4_proto(f);
        if proto == PROTO_TCP {
            seq!['T', 'C', 'P']
        } else if proto == PROTO_UDP {
            seq!['U', 'D', 'P']
        } else if proto == PROTO_ICMP {
            seq!['I', 'C', 'M', 'P']
        } else {
            seq!['I', 'P', 'v', '4']
        }
    } else {
        let nh = f[20];
        if nh == PROTO_TCP {
            seq!['T', 'C', 'P']
        } else if nh == PROTO_UDP {
            seq!['U', 'D', 'P']
        } else if nh == PROTO_ICMPV6 {
            seq!['I', 'C', 'M', 'P', 'v', '6']
        } else {
            seq!['I', 'P', 'v', '6']
        }
    }
}

/// The source address text of a summarized frame.
pub open spec fn spec_summary_source(f: Seq<u8>) -> Seq<char> {
    if spec_is_ipv4_frame(f) {
        spec_ipv4_text(spec_ipv4_src(f) as u32)
    } else {
        spec_ipv6_text(spec_be128(f, 22) as u128)
    }
}

/// The destination address text of a summarized frame.
pub open spec fn spec_summary_destination(f: Seq<u8>) -> Seq<char> {
    if spec_is_ipv4_frame(f) {
        spec_ipv4_text(spec_ipv4_dst(f) as u32)
    } else {
        spec_ipv6_text(spec_be128(f, 38) as u128)
    }
}

/// The length text of a summarized frame: the IPv4 total length, or the
/// IPv6 payload length, in decimal.
pub open spec fn spec_summary_length(f: Seq<u8>) -> Seq<char> {
    if spec_is_ipv4_frame(f) {
        spec_dec(spec_be16(f, 16))
    } else {
        spec_dec(spec_be16(f, 18))
    }
}

/// The detail line of a summarized frame.
pub open spec fn spec_summary_info(f: Seq<u8>) -> Seq<char> {
    if spec_is_ipv4_frame(f) {
        let proto = spec_ipv4_proto(f);
        let p = spec_ipv4_payload(f);
        if proto == PROTO_TCP {
            if p.len() >= 20 {
                spec_tcp_info(p)
            } else {
                seq!['M', 'a', 'l', 'f', 'o', 'r', 'm', 'e', 'd', ' ', 'T', 'C', 'P']
            }
        } else if proto == PROTO_UDP {
            if p.len() >= 8 {
                spec_udp_info(p)
            } else {
                seq!['M', 'a', 'l', 'f', 'o', 'r', 'm', 'e', 'd', ' ', 'U', 'D', 'P']
            }
        } else if proto == PROTO_ICMP {
            if p.len() >= 4 {
                spec_icmp_info(p)
            } else {
                seq!['M', 'a', 'l', 'f', 'o', 'r', 'm', 'e', 'd', ' ', 'I', 'C', 'M', 'P']
            }
        } else {
            seq!['U', 'n', 'k', 'n', 'o', 'w', 'n', ' ', 'L', '4']
        }
    } else {
        let nh = f[20];
        if nh == PROTO_TCP {
            seq!['T', 'C', 'P', ' ', '(', 'I', 'P', 'v', '6', ')']
        } else if nh == PROTO_UDP {
            seq!['U', 'D', 'P', ' ', '(', 'I', 'P', 'v', '6', ')']
        } else if nh == PROTO_ICMPV6 {
            seq!['I', 'C', 'M', 'P', 'v', '6']
        } else {
            seq!['I', 'P', 'v', '6']
        }
    }
}

/// Locate the IPv4 payload of the frame, returning its bounds.
fn ipv4_payload_bounds(frame: &[u8]) -> (r: (usize, usize))
    requires
        spec_is_ipv4_frame(frame@),
    ensures
        r.0 == spec_ipv4_payload_start(frame@),
        r.0 <= r.1 <= frame@.len() || (r.0 >= frame@.len() && r.1 == r.0),
        spec_ipv4_payload(frame@) == if r.0 >= frame@.len() {
            Seq::<u8>::empty()
        } else {
            frame@.subrange(r.0 as int, r.1 as int)
        },
{
    let ihl: usize = (frame[14] & 0x0f) as usize;
    let hl: usize = if 4 * ihl < 20 {
        20
    } else {
        4 * ihl
    };
    let start: usize = 14 + hl;
    let total: usize = read_be16(frame, 16) as usize;
    let plen: usize = if total < 4 * ihl {
        0
    } else {
        total - 4 * ihl
    };
    if start >= frame.len() {
        (start, start)
    } else {
        let end: usize = if start + plen > frame.len() {
            frame.len()
        } else {
            start + plen
        };
        (start, end)
    }
}

fn malformed_text(kind: u8) -> (s: String)
    requires
        kind == PROTO_TCP || kind == PROTO_UDP || kind == PROTO_ICMP,
    ensures
        kind == PROTO_TCP ==> s@ == seq![
            'M',
            'a',
            'l',
            'f',
            'o',
            'r',
            'm',
            'e',
            'd',
            ' ',
            'T',
            'C',
            'P',
        ],
        kind == PROTO_UDP ==> s@ == seq![
            'M',
            'a',
            'l',
            'f',
            'o',
            'r',
            'm',
            'e',
            'd',
            ' ',
            'U',
            'D',
            'P',
        ],
        kind == PROTO_ICMP ==> s@ == seq![
            'M',
            'a',
            'l',
            'f',
            'o',
            'r',
            'm',
            'e',
            'd',
            ' ',
            'I',
            'C',
            'M',
            'P',
        ],
{
    proof {
        reveal_strlit("Malformed TCP");
        reveal_strlit("Malformed UDP");
        reveal_strlit("Malformed ICMP");
    }
    if kind == PROTO_TCP {
        let s: String = "Malformed TCP".to_owned();
        assert(s@ =~= seq!['M', 'a', 'l', 'f', 'o', 'r', 'm', 'e', 'd', ' ', 'T', 'C', 'P']);
        s
    } else if kind == PROTO_UDP {
        let s: String = "Malformed UDP".to_owned();
        assert(s@ =~= seq!['M', 'a', 'l', 'f', 'o', 'r', 'm', 'e', 'd', ' ', 'U', 'D', 'P']);
        s
    } else {
        let s: String = "Malformed ICMP".to_owned();
        assert(s@ =~= seq!['M', 'a', 'l', 'f', 'o', 'r', 'm', 'e', 'd', ' ', 'I', 'C', 'M', 'P']);
        s
    }
}

/// Build `a -> b [tag=n]`, the shared shape of the TCP and UDP detail lines.
fn ports_info(a: u16, b: u16, is_seq_tag: bool, n: u64) -> (s: String)
    ensures
        is_seq_tag ==> s@ == spec_dec(a as nat) + spec_arrow_text() + spec_dec(b as nat) + seq![
            ' ',
            '[',
            'S',
            'e',
            'q',
            '=',
        ] + spec_dec(n as nat) + seq![']'],
        !is_seq_tag ==> s@ == spec_dec(a as nat) + spec_arrow_text() + spec_dec(b as nat) + seq![
            ' ',
            '[',
            'L',
            'e',
            'n',
            '=',
        ] + spec_dec(n as nat) + seq![']'],
{
    proof {
        reveal_strlit(" -> ");
        reveal_strlit(" [Seq=");
        reveal_strlit(" [Len=");
        reveal_strlit("]");
    }
    let mut s = fmt_u64(a as u64);
    s.append(" -> ");
    let bs = fmt_u64(b as u64);
    s.append(bs.as_str());
    if is_seq_tag {
        s.append(" [Seq=");
    } else {
        s.append(" [Len=");
    }
    let ns = fmt_u64(n);
    s.append(ns.as_str());
    s.append("]");
    proof {
        if is_seq_tag {
            assert(s@ =~= spec_dec(a as nat) + spec_arrow_text() + spec_dec(b as nat) + seq![
                ' ',
                '[',
                'S',
                'e',
                'q',
                '=',
            ] + spec_dec(n as nat) + seq![']']);
        } else {
            assert(s@ =~= spec_dec(a as nat) + spec_arrow_text() + spec_dec(b as nat) + seq![
                ' ',
                '[',
                'L',
                'e',
                'n',
                '=',
            ] + spec_dec(n as nat) + seq![']']);
        }
    }
    s
}

/// Build `Type=t Code=c`, the ICMP detail line.
fn icmp_info(t: u8, c: u8) -> (s: String)
    ensures
        s@ == seq!['T', 'y', 'p', 'e', '='] + spec_dec(t as nat) + seq![
            ' ',
            'C',
            'o',
            'd',
            'e',
            '=',
        ] + spec_dec(c as nat),
{
    proof {
        reveal_strlit("Type=");
        reveal_strlit(" Code=");
    }
    let mut s: String = "Type=".to_owned();
    let ts = fmt_u64(t as u64);
    s.append(ts.as_str());
    s.append(" Code=");
    let cs = fmt_u64(c as u64);
    s.append(cs.as_str());
    proof {
        assert(s@ =~= seq!['T', 'y', 'p', 'e', '='] + spec_dec(t as nat) + seq![
            ' ',
            'C',
            'o',
            'd',
            'e',
            '=',
        ] + spec_dec(c as nat));
    }
    s
}

/// Summarize one captured frame, stamped with the given wall-clock time.
/// Frames that are neither IPv4 nor IPv6 yield no summary.
pub fn summarize_frame(frame: &[u8], h: u8, m: u8, s: u8) -> (r: Option<PacketSummary>)
    ensures
        r is Some <==> (spec_is_ipv4_frame(frame@) || spec_is_ipv6_frame(frame@)),
        r matches Some(ps) ==> {
            &&& ps.time@ == spec_time_text(h as nat, m as nat, s as nat)
            &&& ps.source@ == spec_summary_source(frame@)
            &&& ps.destination@ == spec_summary_destination(frame@)
            &&& ps.protocol@ == spec_summary_protocol(frame@)
            &&& ps.length@ == spec_summary_length(frame@)
            &&& ps.info@ == spec_summary_info(frame@)
        },
{
    proof {
        reveal_strlit("TCP");
        reveal_strlit("UDP");
        reveal_strlit("ICMP");
        reveal_strlit("IPv4");
        reveal_strlit("IPv6");
        reveal_strlit("ICMPv6");
        reveal_strlit("TCP (IPv6)");
        reveal_strlit("UDP (IPv6)");
        reveal_strlit("Unknown L4");
    }
    if frame.len() >= 34 && frame[12] == 0x08 && frame[13] == 0x00 {
        let src = read_be32(frame, 26);
        let dst = read_be32(frame, 30);
        let proto = frame[23];
        let (pstart, pend) = ipv4_payload_bounds(frame);
        let plen: usize = if pstart >= frame.len() {
            0
        } else {
            pend - pstart
        };
        proof {
            assert(spec_ipv4_payload(frame@).len() == plen);
        }

        let (protocol, info): (String, String) = if proto == PROTO_TCP {
            let protocol: String = "TCP".to_owned();
            assert(protocol@ =~= seq!['T', 'C', 'P']);
            if plen >= 20 {
                let sp = read_be16(frame, pstart);
                let dp = read_be16(frame, pstart + 2);
                let sq = read_be32(frame, pstart + 4);
                proof {
                    let p = spec_ipv4_payload(frame@);
                    assert(spec_be16(p, 0) == spec_be16(frame@, pstart as int));
                    assert(spec_be16(p, 2) == spec_be16(frame@, pstart + 2));
                    assert(spec_be32(p, 4) == spec_be32(frame@, pstart + 4));
                }
                (protocol, ports_info(sp, dp, true, sq as u64))
            } else {
                (protocol, malformed_text(PROTO_TCP))
            }
        } else if proto == PROTO_UDP {
            let protocol: String = "UDP".to_owned();
            assert(protocol@ =~= seq!['U', 'D', 'P']);
            if plen >= 8 {
                let sp = read_be16(frame, pstart);
                let dp = read_be16(frame, pstart + 2);
                let l = read_be16(frame, pstart + 4);
                proof {
                    let p = spec_ipv4_payload(frame@);
                    assert(spec_be16(p, 0) == spec_be16(frame@, pstart as int));
                    assert(spec_be16(p, 2) == spec_be16(frame@, pstart + 2));
                    assert(spec_be16(p, 4) == spec_be16(frame@, pstart + 4));
                }
                (protocol, ports_info(sp, dp, false, l as u64))
            } else {
                (protocol, malformed_text(PROTO_UDP))
            }
        } else if proto == PROTO_ICMP {
            let protocol: String = "ICMP".to_owned();
            assert(protocol@ =~= seq!['I', 'C', 'M', 'P']);
            if plen >= 4 {
                let t = frame[pstart];
                let c = frame[pstart + 1];
                proof {
                    let p = spec_ipv4_payload(frame@);
                    assert(p[0] == frame@[pstart as int]);
                    assert(p[1] == frame@[pstart + 1]);
                }
                (protocol, icmp_info(t, c))
            } else {
                (protocol, malformed_text(PROTO_ICMP))
            }
        } else {
            let protocol: String = "IPv4".to_owned();
            assert(protocol@ =~= seq!['I', 'P', 'v', '4']);
            let info: String = "Unknown L4".to_owned();
            assert(info@ =~= seq!['U', 'n', 'k', 'n', 'o', 'w', 'n', ' ', 'L', '4']);
            (protocol, info)
        };

        let total = read_be16(frame, 16);
        Some(
            PacketSummary {
                time: fmt_time(h, m, s),
                source: fmt_ipv4(src),
                destination: fmt_ipv4(dst),
                protocol,
                length: fmt_u64(total as u64),
                info,
            },
        )
    } else if frame.len() >= 54 && frame[12] == 0x86 && frame[13] == 0xdd {
        let src = read_be128(frame, 22);
        let dst = read_be128(frame, 38);
        let nh = frame[20];

        let (protocol, info): (String, String) = if nh == PROTO_TCP {
            let protocol: String = "TCP".to_owned();
            assert(protocol@ =~= seq!['T', 'C', 'P']);
            let info: String = "TCP (IPv6)".to_owned();
            assert(info@ =~= seq!['T', 'C', 'P', ' ', '(', 'I', 'P', 'v', '6', ')']);
            (protocol, info)
        } else if nh == PROTO_UDP {
            let protocol: String = "UDP".to_owned();
            assert(protocol@ =~= seq!['U', 'D', 'P']);
            let info: String = "UDP (IPv6)".to_owned();
            assert(info@ =~= seq!['U', 'D', 'P', ' ', '(', 'I', 'P', 'v', '6', ')']);
            (protocol, info)
        } else if nh == PROTO_ICMPV6 {
            let protocol: String = "ICMPv6".to_owned();
            assert(protocol@ =~= seq!['I', 'C', 'M', 'P', 'v', '6']);
            let info: String = "ICMPv6".to_owned();
            assert(info@ =~= seq!['I', 'C', 'M', 'P', 'v', '6']);
            (protocol, info)
        } else {
            let protocol: String = "IPv6".to_owned();
            assert(protocol@ =~= seq!['I', 'P', 'v', '6']);
            let info: String = "IPv6".to_owned();
            assert(info@ =~= seq!['I', 'P', 'v', '6']);
            (protocol, info)
        };

        let plen6 = read_be16(frame, 18);
        Some(
            PacketSummary {
                time: fmt_time(h, m, s),
                source: fmt_ipv6(src),
                destination: fmt_ipv6(dst),
                protocol,
                length: fmt_u64(plen6 as u64),
                info,
            },
        )
    } else {
        None
    }
}

} // verus!

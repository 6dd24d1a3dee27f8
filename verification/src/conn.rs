//! Connection snapshots and ASN carry-forward.
//!
//! A collaborator delivers the system's connection table every couple of
//! seconds as rows of text.  Each snapshot fully replaces the previous
//! connection map, except that an address present in both keeps its already
//! resolved ASN number, organization and location — only addresses first
//! seen in the new snapshot are handed back for a fresh lookup.
//!
//! A row's remote endpoint is written `address.port` once every colon has
//! been replaced by a dot, so the address is whatever precedes the last dot;
//! only IPv4 addresses survive this extraction, and loopback or unspecified
//! addresses are dropped.

use vstd::prelude::*;
use vstd::utf8::encode_utf8;
use crate::args::{spec_all_digits, spec_digits_val, parse_u64, BYTE_DOT, BYTE_ZERO};
use crate::net::IpAddress;

verus! {

/// One row of the system connection table, as delivered by the collaborator
/// that enumerates it.
#[derive(Debug, Clone)]
pub struct RawConnection {
    pub protocol: String,
    pub local_addr: String,
    pub remote_addr: String,
    pub state: String,
}

/// One row of the link-layer scan panel.
#[derive(Clone, Debug)]
pub struct ArpEntry {
    pub ip: String,
    pub mac: String,
    pub vendor: String,
}

/// One tracked connection: the remote address, its resolved autonomous
/// system and approximate location (latitude and longitude in
/// micro-degrees), and when it was last seen (a caller-supplied clock, in
/// milliseconds).
#[derive(Debug, Clone)]
pub struct ConnectionInfo {
    pub remote_ip: IpAddress,
    pub asn_num: u32,
    pub asn_org: String,
    pub last_seen_ms: u64,
    pub packet_count: u64,
    pub protocol: String,
    pub location: Option<(i64, i64)>,
}

/// A decimal octet as written in a dotted quad: one to three digits, value
/// at most 255, no leading zero.
pub open spec fn spec_is_octet(t: Seq<u8>) -> bool {
    &&& spec_all_digits(t)
    &&& t.len() <= 3
    &&& spec_digits_val(t) <= 255
    &&& (t.len() == 1 || t[0] != BYTE_ZERO)
}

/// Dots at `d1 < d2 < d3` split `t` into four valid octets.
pub open spec fn spec_quad_at(t: Seq<u8>, d1: int, d2: int, d3: int) -> bool {
    &&& 0 <= d1 < d2 < d3 < t.len()
    &&& t[d1] == BYTE_DOT
    &&& t[d2] == BYTE_DOT
    &&& t[d3] == BYTE_DOT
    &&& spec_is_octet(t.subrange(0, d1))
    &&& spec_is_octet(t.subrange(d1 + 1, d2))
    &&& spec_is_octet(t.subrange(d2 + 1, d3))
    &&& spec_is_octet(t.subrange(d3 + 1, t.len() as int))
}

/// The 32-bit value written by a dotted quad split at `d1 < d2 < d3`.
pub open spec fn spec_quad_val(t: Seq<u8>, d1: int, d2: int, d3: int) -> u32 {
    (spec_digits_val(t.subrange(0, d1)) * 0x1000000 + spec_digits_val(t.subrange(d1 + 1, d2))
        * 0x10000 + spec_digits_val(t.subrange(d2 + 1, d3)) * 0x100 + spec_digits_val(
        t.subrange(d3 + 1, t.len() as int),
    )) as u32
}

/// What parsing a dotted-quad IPv4 address yields.
pub open spec fn spec_parse_ipv4(t: Seq<u8>) -> Option<u32> {
    if exists|d: (int, int, int)| spec_quad_at(t, d.0, d.1, d.2) {
        let d = choose|d: (int, int, int)| spec_quad_at(t, d.0, d.1, d.2);
        Some(spec_quad_val(t, d.0, d.1, d.2))
    } else {
        None
    }
}

/// Check one octet of a dotted quad, between `from` and `to`.
fn check_octet(t: &[u8], from: usize, to: usize) -> (r: Option<u64>)
    requires
        from <= to <= t@.len(),
    ensures
        r is Some <==> spec_is_octet(t@.subrange(from as int, to as int)),
        r matches Some(v) ==> v == spec_digits_val(t@.subrange(from as int, to as int)),
{
    let len = to - from;
    if len < 1 || len > 3 {
        return None;
    }
    if len > 1 && t[from] == BYTE_ZERO {
        return None;
    }
    let mut part: Vec<u8> = Vec::new();
    let mut k = from;
    while k < to
        invariant
            from <= k <= to <= t@.len(),
            part@ =~= t@.subrange(from as int, k as int),
        decreases to - k,
    {
        part.push(t[k]);
        k = k + 1;
        assert(part@ =~= t@.subrange(from as int, k as int));
    }
    match parse_u64(part.as_slice()) {
        Some(v) => {
            if v <= 255 {
                Some(v)
            } else {
                None
            }
        },
        None => None,
    }
}

/// Collect the first three dot positions of the text, in order.  When fewer
/// than three come back, the text has no others; when three come back, every
/// dot before the third is one of the first two.
fn find_first_dots(t: &[u8]) -> (dots: Vec<usize>)
    ensures
        dots@.len() <= 3,
        forall|j: int|
            0 <= j < dots@.len() ==> #[trigger] dots@[j] < t@.len() && t@[dots@[j] as int]
                == BYTE_DOT,
        forall|j1: int, j2: int| 0 <= j1 < j2 < dots@.len() ==> dots@[j1] < dots@[j2],
        dots@.len() < 3 ==> forall|k: int|
            0 <= k < t@.len() && t@[k] == BYTE_DOT ==> exists|j: int|
                0 <= j < dots@.len() && dots@[j] == k,
        dots@.len() == 3 ==> forall|k: int|
            0 <= k < dots@[2] && t@[k] == BYTE_DOT ==> k == dots@[0] || k == dots@[1],
{
    let n = t.len();
    let mut dots: Vec<usize> = Vec::new();
    let mut i: usize = 0;
    while i < n && dots.len() < 3
        invariant
            n == t@.len(),
            i <= n,
            dots@.len() <= 3,
            forall|k: int|
                0 <= k < i && t@[k] == BYTE_DOT ==> exists|j: int|
                    0 <= j < dots@.len() && dots@[j] == k,
            forall|j: int|
                0 <= j < dots@.len() ==> 0 <= #[trigger] dots@[j] < i && t@[dots@[j] as int]
                    == BYTE_DOT,
            forall|j1: int, j2: int| 0 <= j1 < j2 < dots@.len() ==> dots@[j1] < dots@[j2],
        decreases n - i,
    {
        let ghost pre = dots@;
        if t[i] == BYTE_DOT {
            dots.push(i);
            proof {
                assert(dots@[dots@.len() - 1] == i);
            }
        }
        i = i + 1;
        proof {
            assert forall|k: int| 0 <= k < i && t@[k] == BYTE_DOT implies exists|j: int|
                0 <= j < dots@.len() && dots@[j] == k by {
                if k < i - 1 {
                    let j = choose|j: int| 0 <= j < pre.len() && pre[j] == k;
                    assert(dots@[j] == k);
                } else {
                    assert(dots@[dots@.len() - 1] == k);
                }
            }
        }
    }
    proof {
        if dots@.len() == 3 {
            assert forall|k: int| 0 <= k < dots@[2] && t@[k] == BYTE_DOT implies k == dots@[0] || k
                == dots@[1] by {
                assert(dots@[2] < i);
                let j = choose|j: int| 0 <= j < dots@.len() && dots@[j] == k;
                if j == 2 {
                    assert(false);
                }
            }
        }
    }
    dots
}

/// Parse a dotted-quad IPv4 address.
pub fn parse_ipv4(t: &[u8]) -> (r: Option<u32>)
    ensures
        r == spec_parse_ipv4(t@),
{
    let n = t.len();
    // The three dots of a valid quad are the first three dots of the text.
    let dots = find_first_dots(t);
    if dots.len() < 3 {
        proof {
            assert forall|d: (int, int, int)| !spec_quad_at(t@, d.0, d.1, d.2) by {
                if spec_quad_at(t@, d.0, d.1, d.2) {
                    // three distinct dots would each have to be a collected
                    // position, yet fewer than three were collected
                    let j0 = choose|j: int| 0 <= j < dots@.len() && dots@[j] == d.0;
                    let j1 = choose|j: int| 0 <= j < dots@.len() && dots@[j] == d.1;
                    let j2 = choose|j: int| 0 <= j < dots@.len() && dots@[j] == d.2;
                    assert(j0 != j1 && j1 != j2 && j0 != j2);
                }
            }
        }
        return None;
    }
    let d1 = dots[0];
    let d2 = dots[1];
    let d3 = dots[2];

    let o1 = check_octet(t, 0, d1);
    let o2 = if d1 + 1 <= d2 {
        check_octet(t, d1 + 1, d2)
    } else {
        None
    };
    let o3 = if d2 + 1 <= d3 {
        check_octet(t, d2 + 1, d3)
    } else {
        None
    };
    let o4 = if d3 + 1 <= n {
        check_octet(t, d3 + 1, n)
    } else {
        None
    };

    proof {
        // any valid quad must use exactly these dot positions
        assert forall|d: (int, int, int)| spec_quad_at(t@, d.0, d.1, d.2) implies d.0 == d1 && d.1
            == d2 && d.2 == d3 by {
            lemma_first_three_dots(t@, d.0, d.1, d.2, d1 as int, d2 as int, d3 as int);
        }
    }

    match (o1, o2, o3, o4) {
        (Some(a), Some(b), Some(c), Some(d)) => {
            let v: u32 = (a as u32) * 0x1000000 + (b as u32) * 0x10000 + (c as u32) * 0x100 + (
            d as u32);
            proof {
                let w = (d1 as int, d2 as int, d3 as int);
                assert(spec_quad_at(t@, w.0, w.1, w.2));
                let ch = choose|q: (int, int, int)| spec_quad_at(t@, q.0, q.1, q.2);
                assert(ch.0 == d1 && ch.1 == d2 && ch.2 == d3);
                assert(v == spec_quad_val(t@, ch.0, ch.1, ch.2));
            }
            Some(v)
        },
        _ => {
            proof {
                assert forall|d: (int, int, int)| !spec_quad_at(t@, d.0, d.1, d.2) by {
                    if spec_quad_at(t@, d.0, d.1, d.2) {
                        lemma_first_three_dots(
                            t@,
                            d.0,
                            d.1,
                            d.2,
                            d1 as int,
                            d2 as int,
                            d3 as int,
                        );
                    }
                }
            }
            None
        },
    }
}

/// Every colon replaced by a dot, as the connection rows write ports.
pub open spec fn spec_colon_to_dot(s: Seq<u8>) -> Seq<u8> {
    s.map_values(
        |b: u8|
            if b == 58 {
                46u8
            } else {
                b
            },
    )
}

/// `d` is the position of the last dot of `s`.
pub open spec fn spec_is_last_dot(s: Seq<u8>, d: int) -> bool {
    &&& 0 <= d < s.len()
    &&& s[d] == BYTE_DOT
    &&& forall|k: int| d < k < s.len() ==> s[k] != BYTE_DOT
}

/// The IPv4 address of a connection row's remote endpoint: with colons
/// rewritten to dots, whatever precedes the last dot, parsed as a dotted
/// quad.  Rows without a separator, and rows whose address part is not an
/// IPv4 address, yield nothing.
pub open spec fn spec_remote_ip(s: Seq<u8>) -> Option<u32> {
    let c = spec_colon_to_dot(s);
    if exists|d: int| spec_is_last_dot(c, d) {
        spec_parse_ipv4(c.subrange(0, choose|d: int| spec_is_last_dot(c, d)))
    } else {
        None
    }
}

/// Extract the remote IPv4 address of a connection row.
pub fn remote_ip_of(remote: &[u8]) -> (r: Option<u32>)
    ensures
        r == spec_remote_ip(remote@),
{
    let n = remote.len();
    let mut c: Vec<u8> = Vec::new();
    let mut i: usize = 0;
    while i < n
        invariant
            n == remote@.len(),
            i <= n,
            c@ =~= spec_colon_to_dot(remote@).subrange(0, i as int),
        decreases n - i,
    {
        let b = remote[i];
        c.push(
            if b == 58 {
                46
            } else {
                b
            },
        );
        i = i + 1;
        assert(c@ =~= spec_colon_to_dot(remote@).subrange(0, i as int));
    }
    proof {
        assert(c@ =~= spec_colon_to_dot(remote@));
    }

    let mut last: usize = n;
    let mut j: usize = 0;
    while j < n
        invariant
            n == c@.len(),
            j <= n,
            last <= n,
            last == n ==> forall|k: int| 0 <= k < j ==> c@[k] != BYTE_DOT,
            last < n ==> last < j && c@[last as int] == BYTE_DOT && forall|k: int|
                last < k < j ==> c@[k] != BYTE_DOT,
        decreases n - j,
    {
        if c[j] == BYTE_DOT {
            last = j;
        }
        j = j + 1;
    }
    if last == n {
        proof {
            assert forall|d: int| !spec_is_last_dot(c@, d) by {
                if spec_is_last_dot(c@, d) {
                    assert(c@[d] != BYTE_DOT);
                }
            }
        }
        return None;
    }
    proof {
        assert forall|k: int| (last as int) < k < c@.len() implies c@[k] != BYTE_DOT by {}
        assert(spec_is_last_dot(c@, last as int));
        let ch = choose|d: int| spec_is_last_dot(c@, d);
        if ch < last {
            assert(c@[last as int] != BYTE_DOT);
        }
        if ch > last {
            assert(c@[ch] != BYTE_DOT);
        }
        assert(ch == last);
    }
    let mut prefix: Vec<u8> = Vec::new();
    let mut k: usize = 0;
    while k < last
        invariant
            last < n,
            n == c@.len(),
            k <= last,
            prefix@ =~= c@.subrange(0, k as int),
        decreases last - k,
    {
        prefix.push(c[k]);
        k = k + 1;
        assert(prefix@ =~= c@.subrange(0, k as int));
    }
    parse_ipv4(prefix.as_slice())
}

/// The address a connection row contributes to the map: its remote IPv4
/// address, unless it is loopback or unspecified.
pub open spec fn spec_snapshot_ip(remote: Seq<u8>) -> Option<u32> {
    match spec_remote_ip(remote) {
        Some(v) => if v >> 24 == 127u32 || v == 0 {
            None
        } else {
            Some(v)
        },
        None => None,
    }
}

/// No two tracked connections share an address.
pub open spec fn spec_conns_unique(s: Seq<ConnectionInfo>) -> bool {
    forall|i: int, j: int|
        0 <= i < j < s.len() ==> (#[trigger] s[i]).remote_ip != (#[trigger] s[j]).remote_ip
}

/// Some tracked connection has this address.
pub open spec fn spec_conns_has(s: Seq<ConnectionInfo>, ip: IpAddress) -> bool {
    exists|j: int| 0 <= j < s.len() && (#[trigger] s[j]).remote_ip == ip
}

/// Find the tracked connection with this address.
fn find_conn(v: &Vec<ConnectionInfo>, ip: &IpAddress) -> (r: Option<usize>)
    ensures
        r matches Some(j) ==> j < v@.len() && v@[j as int].remote_ip == *ip,
        r is None ==> !spec_conns_has(v@, *ip),
{
    let mut j: usize = 0;
    while j < v.len()
        invariant
            j <= v@.len(),
            forall|k: int| 0 <= k < j ==> (#[trigger] v@[k]).remote_ip != *ip,
        decreases v@.len() - j,
    {
        if v[j].remote_ip == *ip {
            return Some(j);
        }
        j = j + 1;
    }
    None
}

/// Replace the connection map with a new snapshot, carrying resolved ASN
/// data forward.  Returns the new map and the indices of the entries whose
/// address was not in the previous map: only those need a lookup, performed
/// afterwards through [`apply_lookup`].
///
/// An address present in both snapshots keeps its previously resolved ASN
/// number, organization and location, and is not listed for lookup.
#[verifier::rlimit(100)]
pub fn fold_snapshot(prev: &Vec<ConnectionInfo>, raw: &Vec<RawConnection>, now_ms: u64) -> (r: (
    Vec<ConnectionInfo>,
    Vec<usize>,
))
    requires
        spec_conns_unique(prev@),
    ensures
        spec_conns_unique(r.0@),
        forall|j: int|
            0 <= j < r.0@.len() ==> (#[trigger] r.0@[j]).last_seen_ms == now_ms
                && r.0@[j].packet_count == 0,
        forall|j: int, i: int|
            0 <= j < r.0@.len() && 0 <= i < prev@.len() && (#[trigger] r.0@[j]).remote_ip == (
            #[trigger] prev@[i]).remote_ip ==> r.0@[j].asn_num == prev@[i].asn_num && r.0@[j].asn_org
                == prev@[i].asn_org && r.0@[j].location == prev@[i].location,
        forall|k: int|
            0 <= k < r.1@.len() ==> #[trigger] r.1@[k] < r.0@.len() && !spec_conns_has(
                prev@,
                r.0@[r.1@[k] as int].remote_ip,
            ),
        forall|j: int|
            0 <= j < r.0@.len() && !spec_conns_has(prev@, (#[trigger] r.0@[j]).remote_ip) ==> {
                &&& r.0@[j].asn_num == 0
                &&& r.0@[j].asn_org@ == seq!['-']
                &&& r.0@[j].location is None
                &&& exists|k: int| 0 <= k < r.1@.len() && r.1@[k] == j
            },
        forall|k: int|
            0 <= k < raw@.len() && spec_snapshot_ip(
                encode_utf8((#[trigger] raw@[k]).remote_addr@),
            ) is Some ==> (spec_snapshot_ip(encode_utf8(raw@[k].remote_addr@)) matches Some(v)
                && spec_conns_has(r.0@, IpAddress::V4(v))),
        forall|j: int|
            0 <= j < r.0@.len() ==> exists|k: int|
                0 <= k < raw@.len() && (spec_snapshot_ip(
                    encode_utf8((#[trigger] raw@[k]).remote_addr@),
                ) matches Some(v) && (#[trigger] r.0@[j]).remote_ip == IpAddress::V4(v)
                    && r.0@[j].protocol == raw@[k].protocol),
{
    proof {
        reveal_strlit("-");
    }
    let mut conns: Vec<ConnectionInfo> = Vec::new();
    let mut need: Vec<usize> = Vec::new();
    let mut ri: usize = 0;
    while ri < raw.len()
        invariant
            spec_conns_unique(prev@),
            ri <= raw@.len(),
            spec_conns_unique(conns@),
            forall|j: int|
                0 <= j < conns@.len() ==> (#[trigger] conns@[j]).last_seen_ms == now_ms
                    && conns@[j].packet_count == 0,
            forall|j: int, i: int|
                0 <= j < conns@.len() && 0 <= i < prev@.len() && (#[trigger] conns@[j]).remote_ip
                    == (#[trigger] prev@[i]).remote_ip ==> conns@[j].asn_num == prev@[i].asn_num
                    && conns@[j].asn_org == prev@[i].asn_org && conns@[j].location
                    == prev@[i].location,
            forall|k: int|
                0 <= k < need@.len() ==> #[trigger] need@[k] < conns@.len() && !spec_conns_has(
                    prev@,
                    conns@[need@[k] as int].remote_ip,
                ),
            forall|j: int|
                0 <= j < conns@.len() && !spec_conns_has(prev@, (#[trigger] conns@[j]).remote_ip)
                    ==> {
                    &&& conns@[j].asn_num == 0
                    &&& conns@[j].asn_org@ == seq!['-']
                    &&& conns@[j].location is None
                    &&& exists|k: int| 0 <= k < need@.len() && need@[k] == j
                },
            forall|k: int|
                0 <= k < ri && spec_snapshot_ip(
                    encode_utf8((#[trigger] raw@[k]).remote_addr@),
                ) is Some ==> (spec_snapshot_ip(encode_utf8(raw@[k].remote_addr@)) matches Some(v)
                    && spec_conns_has(conns@, IpAddress::V4(v))),
            forall|j: int|
                0 <= j < conns@.len() ==> exists|k: int|
                    0 <= k < ri && (spec_snapshot_ip(
                        encode_utf8((#[trigger] raw@[k]).remote_addr@),
                    ) matches Some(v) && (#[trigger] conns@[j]).remote_ip == IpAddress::V4(v)
                        && conns@[j].protocol == raw@[k].protocol),
        decreases raw@.len() - ri,
    {
        let rc = &raw[ri];
        let ghost pre_conns = conns@;
        let ghost pre_need = need@;
        if let Some(v) = remote_ip_of(rc.remote_addr.as_str().as_bytes()) {
            let ip = IpAddress::V4(v);
            if !ip.is_loopback() && !ip.is_unspecified() {
                assert(spec_snapshot_ip(encode_utf8(raw@[ri as int].remote_addr@)) == Some(v));
                let (asn_num, asn_org, location, known): (u32, String, Option<(i64, i64)>, bool) =
                    match find_conn(prev, &ip) {
                    Some(pj) => {
                        let p = &prev[pj];
                        (p.asn_num, p.asn_org.clone(), p.location, true)
                    },
                    None => {
                        proof {
                            reveal_strlit("-");
                        }
                        let dash: String = "-".to_owned();
                        assert(dash@ =~= seq!['-']);
                        (0, dash, None, false)
                    },
                };
                proof {
                    if known {
                        assert(spec_conns_has(prev@, ip));
                    }
                }
                let entry = ConnectionInfo {
                    remote_ip: ip,
                    asn_num,
                    asn_org,
                    last_seen_ms: now_ms,
                    packet_count: 0,
                    protocol: rc.protocol.clone(),
                    location,
                };
                match find_conn(&conns, &ip) {
                    Some(cj) => {
                        conns[cj] = entry;
                        proof {
                            assert(conns@ == pre_conns.update(cj as int, entry));
                            assert forall|j: int|
                                0 <= j < conns@.len() && !spec_conns_has(
                                    prev@,
                                    (#[trigger] conns@[j]).remote_ip,
                                ) implies exists|k: int|
                                0 <= k < need@.len() && need@[k] == j by {
                                let k0 = choose|k: int|
                                    0 <= k < pre_need.len() && pre_need[k] == j;
                                assert(need@[k0] == j);
                            }
                            assert forall|k: int|
                                0 <= k < ri + 1 && spec_snapshot_ip(
                                    encode_utf8((#[trigger] raw@[k]).remote_addr@),
                                ) is Some implies (spec_snapshot_ip(
                                encode_utf8(raw@[k].remote_addr@),
                            ) matches Some(w) && spec_conns_has(conns@, IpAddress::V4(w))) by {
                                if k < ri {
                                    let w = spec_snapshot_ip(encode_utf8(raw@[k].remote_addr@));
                                    let j0 = choose|j: int|
                                        0 <= j < pre_conns.len() && (#[trigger] pre_conns[j]).remote_ip
                                            == IpAddress::V4(w.unwrap());
                                    assert(conns@[j0].remote_ip == pre_conns[j0].remote_ip);
                                } else {
                                    assert(conns@[cj as int].remote_ip == ip);
                                }
                            }
                        }
                    },
                    None => {
                        conns.push(entry);
                        if !known {
                            need.push(conns.len() - 1);
                        }
                        proof {
                            assert(conns@ == pre_conns.push(entry));
                            assert forall|j: int|
                                0 <= j < conns@.len() && !spec_conns_has(
                                    prev@,
                                    (#[trigger] conns@[j]).remote_ip,
                                ) implies exists|k: int|
                                0 <= k < need@.len() && need@[k] == j by {
                                if j < pre_conns.len() {
                                    let k0 = choose|k: int|
                                        0 <= k < pre_need.len() && pre_need[k] == j;
                                    assert(need@[k0] == j);
                                } else {
                                    assert(need@[need@.len() - 1] == j);
                                }
                            }
                            assert forall|k: int|
                                0 <= k < ri + 1 && spec_snapshot_ip(
                                    encode_utf8((#[trigger] raw@[k]).remote_addr@),
                                ) is Some implies (spec_snapshot_ip(
                                encode_utf8(raw@[k].remote_addr@),
                            ) matches Some(w) && spec_conns_has(conns@, IpAddress::V4(w))) by {
                                if k < ri {
                                    let w = spec_snapshot_ip(encode_utf8(raw@[k].remote_addr@));
                                    let j0 = choose|j: int|
                                        0 <= j < pre_conns.len() && (#[trigger] pre_conns[j]).remote_ip
                                            == IpAddress::V4(w.unwrap());
                                    assert(conns@[j0].remote_ip == pre_conns[j0].remote_ip);
                                } else {
                                    assert(conns@[conns@.len() - 1].remote_ip == ip);
                                }
                            }
                        }
                    },
                }
            }
        }
        ri = ri + 1;
    }
    (conns, need)
}

/// Write a finished lookup's result into one connection entry; every other
/// field and every other entry is untouched.
pub fn apply_lookup(
    conns: &mut Vec<ConnectionInfo>,
    idx: usize,
    asn_num: u32,
    asn_org: String,
    location: Option<(i64, i64)>,
)
    requires
        idx < old(conns)@.len(),
    ensures
        final(conns)@.len() == old(conns)@.len(),
        forall|j: int|
            0 <= j < old(conns)@.len() && j != idx ==> final(conns)@[j] == old(conns)@[j],
        final(conns)@[idx as int].remote_ip == old(conns)@[idx as int].remote_ip,
        final(conns)@[idx as int].asn_num == asn_num,
        final(conns)@[idx as int].asn_org == asn_org,
        final(conns)@[idx as int].location == location,
        final(conns)@[idx as int].last_seen_ms == old(conns)@[idx as int].last_seen_ms,
        final(conns)@[idx as int].packet_count == old(conns)@[idx as int].packet_count,
        final(conns)@[idx as int].protocol == old(conns)@[idx as int].protocol,
{
    let e = &mut conns[idx];
    e.asn_num = asn_num;
    e.asn_org = asn_org;
    e.location = location;
}

/// If a quad exists, its dots are the first three dots of the text: there is
/// no dot before the first, none between the first and second, none between
/// the second and third.
proof fn lemma_first_three_dots(
    t: Seq<u8>,
    q1: int,
    q2: int,
    q3: int,
    d1: int,
    d2: int,
    d3: int,
)
    requires
        spec_quad_at(t, q1, q2, q3),
        0 <= d1 < d2 < d3 < t.len(),
        t[d1] == BYTE_DOT,
        t[d2] == BYTE_DOT,
        t[d3] == BYTE_DOT,
        // every dot strictly before `d3` is `d1` or `d2`
        forall|k: int| 0 <= k < d3 && t[k] == BYTE_DOT ==> k == d1 || k == d2,
    ensures
        q1 == d1,
        q2 == d2,
        q3 == d3,
{
    // q1 is a dot with no dot before it; d1 is a dot with no dot before it.
    if d1 < q1 {
        assert(t.subrange(0, q1)[d1] == t[d1]);
    }
    assert(q1 == d1);
    if d2 < q2 {
        assert(t.subrange(q1 + 1, q2)[d2 - q1 - 1] == t[d2]);
    }
    assert(q2 == d2);
    if d3 < q3 {
        assert(t.subrange(q2 + 1, q3)[d3 - q2 - 1] == t[d3]);
    }
    assert(q3 == d3);
}

} // verus!

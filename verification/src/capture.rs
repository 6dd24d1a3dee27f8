//! Link-layer capture classification and traffic counters.
//!
//! For every captured Ethernet frame the engine: counts it, classifies its
//! direction (inbound if the destination is a bound local address, otherwise
//! outbound), classifies the flow as LAN or WAN (the non-local endpoint is
//! compared against every bound address/netmask pair), and charges the
//! frame's length to the matching byte counter.  IPv6 frames get direction
//! detection only and default to WAN.
//!
//! The byte offsets below follow the standard Ethernet, IPv4 and IPv6
//! encodings: the ethertype at offset 12, the IPv4 header from offset 14
//! (protocol at 23, source at 26, destination at 30), the IPv6 header from
//! offset 14 (next header at 20, destination at 38).

use vstd::prelude::*;
use vstd::utf8::encode_utf8;
use crate::filter::contains_ci;
use crate::filter::contains_case_insensitive;
use crate::summary::{
    PacketSummary, summarize_frame, spec_summary_source, spec_summary_destination,
    spec_summary_protocol, spec_summary_info,
};

verus! {

/// The addresses bound to the capturing interface: IPv4 addresses with their
/// subnet masks, and IPv6 addresses.
pub struct LocalNets {
    pub v4: Vec<(u32, u32)>,
    pub v6: Vec<u128>,
}

/// Big-endian 16-bit field at `off`.
pub open spec fn spec_be16(f: Seq<u8>, off: int) -> nat {
    (f[off] as nat) * 0x100 + (f[off + 1] as nat)
}

/// Big-endian 32-bit field at `off`.
pub open spec fn spec_be32(f: Seq<u8>, off: int) -> nat {
    (f[off] as nat) * 0x1000000 + (f[off + 1] as nat) * 0x10000 + (f[off + 2] as nat) * 0x100 + (
    f[off + 3] as nat)
}

/// Big-endian 128-bit field at `off`.
pub open spec fn spec_be128(f: Seq<u8>, off: int) -> nat {
    spec_be32(f, off) * 0x1000000000000000000000000 + spec_be32(f, off + 4) * 0x10000000000000000
        + spec_be32(f, off + 8) * 0x100000000 + spec_be32(f, off + 12)
}

/// Read a big-endian 16-bit field.
pub fn read_be16(f: &[u8], off: usize) -> (r: u16)
    requires
        off + 2 <= f@.len(),
    ensures
        r == spec_be16(f@, off as int),
{
    (f[off] as u16) * 0x100 + (f[off + 1] as u16)
}

/// Read a big-endian 32-bit field.
pub fn read_be32(f: &[u8], off: usize) -> (r: u32)
    requires
        off + 4 <= f@.len(),
    ensures
        r == spec_be32(f@, off as int),
{
    (f[off] as u32) * 0x1000000 + (f[off + 1] as u32) * 0x10000 + (f[off + 2] as u32) * 0x100 + (
    f[off + 3] as u32)
}

/// Read a big-endian 128-bit field.
pub fn read_be128(f: &[u8], off: usize) -> (r: u128)
    requires
        off + 16 <= f@.len(),
    ensures
        r == spec_be128(f@, off as int),
{
    let n = f.len();
    (read_be32(f, off) as u128) * 0x1000000000000000000000000 + (read_be32(
        f,
        off + 4,
    ) as u128) * 0x10000000000000000 + (read_be32(f, off + 8) as u128) * 0x100000000 + (read_be32(
        f,
        off + 12,
    ) as u128)
}

/// The frame carries a parseable IPv4 packet: ethertype 0x0800 and room for
/// the fixed 20-byte IPv4 header.
pub open spec fn spec_is_ipv4_frame(f: Seq<u8>) -> bool {
    f.len() >= 34 && f[12] == 0x08u8 && f[13] == 0x00u8
}

/// The frame carries a parseable IPv6 packet: ethertype 0x86DD and room for
/// the fixed 40-byte IPv6 header.
pub open spec fn spec_is_ipv6_frame(f: Seq<u8>) -> bool {
    f.len() >= 54 && f[12] == 0x86u8 && f[13] == 0xddu8
}

pub open spec fn spec_ipv4_proto(f: Seq<u8>) -> u8 {
    f[23]
}

pub open spec fn spec_ipv4_src(f: Seq<u8>) -> nat {
    spec_be32(f, 26)
}

pub open spec fn spec_ipv4_dst(f: Seq<u8>) -> nat {
    spec_be32(f, 30)
}

pub open spec fn spec_ipv6_dst(f: Seq<u8>) -> nat {
    spec_be128(f, 38)
}

/// IP protocol numbers the classifier distinguishes.
pub const PROTO_ICMP: u8 = 1;
pub const PROTO_TCP: u8 = 6;
pub const PROTO_UDP: u8 = 17;
pub const PROTO_ICMPV6: u8 = 58;

/// `ip` is one of the interface's bound IPv4 addresses.
pub open spec fn spec_local_v4(nets: LocalNets, ip: nat) -> bool {
    exists|i: int| 0 <= i < nets.v4@.len() && (#[trigger] nets.v4@[i]).0 == ip
}

/// `ip` is one of the interface's bound IPv6 addresses.
pub open spec fn spec_local_v6(nets: LocalNets, ip: nat) -> bool {
    exists|i: int| 0 <= i < nets.v6@.len() && (#[trigger] nets.v6@[i]) == ip
}

/// `ip` lies inside some bound subnet: masked with a pair's netmask it
/// equals that pair's masked address.
pub open spec fn spec_in_lan_v4(nets: LocalNets, ip: u32) -> bool {
    exists|i: int|
        0 <= i < nets.v4@.len() && (ip & (#[trigger] nets.v4@[i]).1) == (nets.v4@[i].0
            & nets.v4@[i].1)
}

/// Direction of a frame: inbound exactly when its destination address is
/// bound locally.  Frames that are neither IPv4 nor IPv6, and frames whose
/// destination is not local, count as outbound.
pub open spec fn spec_frame_inbound(f: Seq<u8>, nets: LocalNets) -> bool {
    if spec_is_ipv4_frame(f) {
        spec_local_v4(nets, spec_ipv4_dst(f))
    } else if spec_is_ipv6_frame(f) {
        spec_local_v6(nets, spec_ipv6_dst(f))
    } else {
        false
    }
}

/// LAN classification of a frame: the non-local endpoint (the source of an
/// inbound frame; the destination of an outbound one whose source is local)
/// lies inside a bound subnet.  IPv6 and unclassifiable frames are WAN.
pub open spec fn spec_frame_lan(f: Seq<u8>, nets: LocalNets) -> bool {
    &&& spec_is_ipv4_frame(f)
    &&& if spec_local_v4(nets, spec_ipv4_dst(f)) {
        spec_in_lan_v4(nets, spec_ipv4_src(f) as u32)
    } else if spec_local_v4(nets, spec_ipv4_src(f)) {
        spec_in_lan_v4(nets, spec_ipv4_dst(f) as u32)
    } else {
        false
    }
}

/// Is `ip` a bound local IPv4 address?
pub fn local_v4(nets: &LocalNets, ip: u32) -> (r: bool)
    ensures
        r == spec_local_v4(*nets, ip as nat),
{
    let mut i: usize = 0;
    while i < nets.v4.len()
        invariant
            i <= nets.v4@.len(),
            forall|k: int| 0 <= k < i ==> (#[trigger] nets.v4@[k]).0 != ip,
        decreases nets.v4@.len() - i,
    {
        if nets.v4[i].0 == ip {
            return true;
        }
        i = i + 1;
    }
    false
}

/// Is `ip` a bound local IPv6 address?
pub fn local_v6(nets: &LocalNets, ip: u128) -> (r: bool)
    ensures
        r == spec_local_v6(*nets, ip as nat),
{
    let mut i: usize = 0;
    while i < nets.v6.len()
        invariant
            i <= nets.v6@.len(),
            forall|k: int| 0 <= k < i ==> (#[trigger] nets.v6@[k]) != ip,
        decreases nets.v6@.len() - i,
    {
        if nets.v6[i] == ip {
            return true;
        }
        i = i + 1;
    }
    false
}

/// Does `ip` lie inside any bound IPv4 subnet?
pub fn in_lan_v4(nets: &LocalNets, ip: u32) -> (r: bool)
    ensures
        r == spec_in_lan_v4(*nets, ip),
{
    let mut i: usize = 0;
    while i < nets.v4.len()
        invariant
            i <= nets.v4@.len(),
            forall|k: int|
                0 <= k < i ==> (ip & (#[trigger] nets.v4@[k]).1) != (nets.v4@[k].0
                    & nets.v4@[k].1),
        decreases nets.v4@.len() - i,
    {
        let (net, mask) = nets.v4[i];
        if (ip & mask) == (net & mask) {
            return true;
        }
        i = i + 1;
    }
    false
}

/// How the counters after one frame relate to the counters before it: the
/// frame is counted, its direction decides the inbound/outbound counter, the
/// direction and LAN/WAN class together decide exactly one byte counter, and
/// an IPv4 TCP or UDP packet bumps its protocol counter.  Additions saturate
/// rather than wrap at the far end of `u64`, so counters never decrease.
pub open spec fn spec_counted(pre: Sniffer, post: Sniffer, f: Seq<u8>, nets: LocalNets) -> bool {
    &&& post.should_stop == pre.should_stop
    &&& post.packet_count == pre.packet_count.saturating_add(1)
    &&& post.in_packets == if spec_frame_inbound(f, nets) {
        pre.in_packets.saturating_add(1)
    } else {
        pre.in_packets
    }
    &&& post.out_packets == if !spec_frame_inbound(f, nets) {
        pre.out_packets.saturating_add(1)
    } else {
        pre.out_packets
    }
    &&& post.lan_in_bytes == if spec_frame_inbound(f, nets) && spec_frame_lan(f, nets) {
        pre.lan_in_bytes.saturating_add(f.len() as u64)
    } else {
        pre.lan_in_bytes
    }
    &&& post.wan_in_bytes == if spec_frame_inbound(f, nets) && !spec_frame_lan(f, nets) {
        pre.wan_in_bytes.saturating_add(f.len() as u64)
    } else {
        pre.wan_in_bytes
    }
    &&& post.lan_out_bytes == if !spec_frame_inbound(f, nets) && spec_frame_lan(f, nets) {
        pre.lan_out_bytes.saturating_add(f.len() as u64)
    } else {
        pre.lan_out_bytes
    }
    &&& post.wan_out_bytes == if !spec_frame_inbound(f, nets) && !spec_frame_lan(f, nets) {
        pre.wan_out_bytes.saturating_add(f.len() as u64)
    } else {
        pre.wan_out_bytes
    }
    &&& post.tcp_packets == if spec_is_ipv4_frame(f) && spec_ipv4_proto(f) == PROTO_TCP {
        pre.tcp_packets.saturating_add(1)
    } else {
        pre.tcp_packets
    }
    &&& post.udp_packets == if spec_is_ipv4_frame(f) && spec_ipv4_proto(f) == PROTO_UDP {
        pre.udp_packets.saturating_add(1)
    } else {
        pre.udp_packets
    }
}

/// The capture engine's shared state: monotonically non-decreasing traffic
/// counters, and the cooperative stop flag of the capture task.
pub struct Sniffer {
    pub should_stop: bool,
    pub packet_count: u64,
    pub in_packets: u64,
    pub out_packets: u64,
    pub wan_in_bytes: u64,
    pub wan_out_bytes: u64,
    pub lan_in_bytes: u64,
    pub lan_out_bytes: u64,
    pub tcp_packets: u64,
    pub udp_packets: u64,
}

impl Sniffer {
    /// A fresh capture session: all counters zero, not stopped.
    pub fn new() -> (s: Sniffer)
        ensures
            !s.should_stop,
            s.packet_count == 0,
            s.in_packets == 0,
            s.out_packets == 0,
            s.wan_in_bytes == 0,
            s.wan_out_bytes == 0,
            s.lan_in_bytes == 0,
            s.lan_out_bytes == 0,
            s.tcp_packets == 0,
            s.udp_packets == 0,
    {
        Sniffer {
            should_stop: false,
            packet_count: 0,
            in_packets: 0,
            out_packets: 0,
            wan_in_bytes: 0,
            wan_out_bytes: 0,
            lan_in_bytes: 0,
            lan_out_bytes: 0,
            tcp_packets: 0,
            udp_packets: 0,
        }
    }

    /// Request cooperative stop.  Counters are untouched; the capture loop
    /// polls this flag once per frame and exits when it is set.
    pub fn stop(&mut self)
        ensures
            final(self).should_stop,
            final(self).packet_count == old(self).packet_count,
            final(self).in_packets == old(self).in_packets,
            final(self).out_packets == old(self).out_packets,
            final(self).wan_in_bytes == old(self).wan_in_bytes,
            final(self).wan_out_bytes == old(self).wan_out_bytes,
            final(self).lan_in_bytes == old(self).lan_in_bytes,
            final(self).lan_out_bytes == old(self).lan_out_bytes,
            final(self).tcp_packets == old(self).tcp_packets,
            final(self).udp_packets == old(self).udp_packets,
    {
        self.should_stop = true;
    }

    /// Count one captured frame.  Every frame is counted, whatever the
    /// filter says; counters only ever grow (additions saturate rather than
    /// wrap at the far end of `u64`).
    pub fn count_frame(&mut self, frame: &[u8], nets: &LocalNets)
        ensures
            spec_counted(*old(self), *final(self), frame@, *nets),
    {
        self.packet_count = self.packet_count.saturating_add(1);
        let len64: u64 = frame.len() as u64;

        let mut inbound = false;
        let mut lan = false;

        if frame.len() >= 14 && frame[12] == 0x08 && frame[13] == 0x00 && frame.len() >= 34 {
            let proto = frame[23];
            if proto == PROTO_TCP {
                self.tcp_packets = self.tcp_packets.saturating_add(1);
            } else if proto == PROTO_UDP {
                self.udp_packets = self.udp_packets.saturating_add(1);
            }
            let src = read_be32(frame, 26);
            let dst = read_be32(frame, 30);
            if local_v4(nets, dst) {
                inbound = true;
                lan = in_lan_v4(nets, src);
            } else if local_v4(nets, src) {
                lan = in_lan_v4(nets, dst);
            }
        } else if frame.len() >= 14 && frame[12] == 0x86 && frame[13] == 0xdd && frame.len()
            >= 54 {
            let dst = read_be128(frame, 38);
            if local_v6(nets, dst) {
                inbound = true;
            }
        }

        if inbound {
            self.in_packets = self.in_packets.saturating_add(1);
            if lan {
                self.lan_in_bytes = self.lan_in_bytes.saturating_add(len64);
            } else {
                self.wan_in_bytes = self.wan_in_bytes.saturating_add(len64);
            }
        } else {
            self.out_packets = self.out_packets.saturating_add(1);
            if lan {
                self.lan_out_bytes = self.lan_out_bytes.saturating_add(len64);
            } else {
                self.wan_out_bytes = self.wan_out_bytes.saturating_add(len64);
            }
        }
    }

    /// Handle one captured frame: update every counter, and build the
    /// summary to emit.  A summary is returned exactly when the frame is
    /// IPv4 or IPv6 and the filter accepts it; counters update regardless.
    pub fn process_frame(
        &mut self,
        frame: &[u8],
        nets: &LocalNets,
        filter: &[u8],
        h: u8,
        m: u8,
        s: u8,
    ) -> (out: Option<PacketSummary>)
        ensures
            spec_counted(*old(self), *final(self), frame@, *nets),
            (out is Some) <==> ((spec_is_ipv4_frame(frame@) || spec_is_ipv6_frame(frame@))
                && spec_summary_matches(frame@, filter@)),
            out matches Some(ps) ==> {
                &&& ps.time@ == crate::strfmt::spec_time_text(h as nat, m as nat, s as nat)
                &&& ps.source@ == spec_summary_source(frame@)
                &&& ps.destination@ == spec_summary_destination(frame@)
                &&& ps.protocol@ == spec_summary_protocol(frame@)
                &&& ps.length@ == crate::summary::spec_summary_length(frame@)
                &&& ps.info@ == crate::summary::spec_summary_info(frame@)
            },
    {
        self.count_frame(frame, nets);
        match summarize_frame(frame, h, m, s) {
            Some(ps) => {
                if filter.len() == 0 {
                    Some(ps)
                } else {
                    let hit = contains_case_insensitive(ps.source.as_str().as_bytes(), filter)
                        || contains_case_insensitive(ps.destination.as_str().as_bytes(), filter)
                        || contains_case_insensitive(ps.protocol.as_str().as_bytes(), filter)
                        || contains_case_insensitive(ps.info.as_str().as_bytes(), filter);
                    if hit {
                        Some(ps)
                    } else {
                        None
                    }
                }
            },
            None => None,
        }
    }
}

/// The filter accepts a frame when it is empty, or when it occurs
/// case-insensitively in the UTF-8 bytes of any of the four text fields of
/// the frame's summary: source, destination, protocol label, or detail.
pub open spec fn spec_summary_matches(f: Seq<u8>, filter: Seq<u8>) -> bool {
    ||| filter.len() == 0
    ||| contains_ci(encode_utf8(spec_summary_source(f)), filter)
    ||| contains_ci(encode_utf8(spec_summary_destination(f)), filter)
    ||| contains_ci(encode_utf8(spec_summary_protocol(f)), filter)
    ||| contains_ci(encode_utf8(spec_summary_info(f)), filter)
}

/// Filtering is case-insensitive: folding the filter to lower case
/// beforehand never changes whether a frame is emitted.
pub proof fn lemma_summary_matches_case_insensitive(f: Seq<u8>, filter: Seq<u8>)
    ensures
        spec_summary_matches(f, crate::filter::fold_bytes(filter)) == spec_summary_matches(
            f,
            filter,
        ),
{
    crate::filter::lemma_contains_ci_case_insensitive(
        encode_utf8(spec_summary_source(f)),
        filter,
    );
    crate::filter::lemma_contains_ci_case_insensitive(
        encode_utf8(spec_summary_destination(f)),
        filter,
    );
    crate::filter::lemma_contains_ci_case_insensitive(
        encode_utf8(spec_summary_protocol(f)),
        filter,
    );
    crate::filter::lemma_contains_ci_case_insensitive(encode_utf8(spec_summary_info(f)), filter);
}

/// The empty filter accepts every frame.
pub proof fn lemma_summary_matches_empty(f: Seq<u8>)
    ensures
        spec_summary_matches(f, Seq::<u8>::empty()),
{
}

} // verus!

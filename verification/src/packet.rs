use vstd::prelude::*;
use crate::addr::{octets_to_bits, Ipv4Address};

verus! {

/// A big-endian 16-bit field read from two bytes.
pub open spec fn be16(hi: u8, lo: u8) -> u16 {
    ((hi as int) * 256 + (lo as int)) as u16
}

/// What one captured frame contributed to the traffic tally: an IPv4
/// packet's endpoints and, for TCP and UDP with a readable transport
/// header, its ports and the IP total length.
#[derive(PartialEq, Eq, Structural, Clone, Copy, Debug)]
pub enum PacketEvent {
    Tcp { src: Ipv4Address, dst: Ipv4Address, src_port: u16, dst_port: u16, total_len: u16 },
    Udp { src: Ipv4Address, dst: Ipv4Address, src_port: u16, dst_port: u16, total_len: u16 },
    Icmp { src: Ipv4Address, dst: Ipv4Address },
    Other { protocol: u8, src: Ipv4Address, dst: Ipv4Address },
}

/// The IP protocol number an event is counted under.
pub open spec fn event_protocol(e: PacketEvent) -> u8 {
    match e {
        PacketEvent::Tcp { .. } => 6,
        PacketEvent::Udp { .. } => 17,
        PacketEvent::Icmp { .. } => 1,
        PacketEvent::Other { protocol, .. } => protocol,
    }
}

/// Whether the frame is an Ethernet frame that carries an IPv4 packet with
/// a complete fixed header: EtherType 0x0800 and at least 20 IP bytes
/// after the 14-byte Ethernet header.
pub open spec fn is_ipv4_frame(f: Seq<u8>) -> bool {
    f.len() >= 34 && f[12] == 0x08 && f[13] == 0x00
}

pub open spec fn ip_protocol_of(f: Seq<u8>) -> u8
    recommends
        is_ipv4_frame(f),
{
    f[23]
}

pub open spec fn ip_src_of(f: Seq<u8>) -> u32
    recommends
        is_ipv4_frame(f),
{
    octets_to_bits(f[26], f[27], f[28], f[29])
}

pub open spec fn ip_dst_of(f: Seq<u8>) -> u32
    recommends
        is_ipv4_frame(f),
{
    octets_to_bits(f[30], f[31], f[32], f[33])
}

pub open spec fn ip_total_len_of(f: Seq<u8>) -> u16
    recommends
        is_ipv4_frame(f),
{
    be16(f[16], f[17])
}

/// Where the IP payload starts in the frame: the IP header spans 4 bytes
/// per unit of its header-length field.
pub open spec fn ip_payload_start(f: Seq<u8>) -> int
    recommends
        is_ipv4_frame(f),
{
    14 + 4 * ((f[14] & 0x0F) as int)
}

/// The event one frame contributes, if it is an IPv4 frame. TCP and UDP
/// packets whose transport header fits in the frame (and whose IP header
/// length is sane) carry their ports; any other IPv4 packet, including a
/// truncated TCP or UDP one, counts under its bare protocol number.
pub open spec fn frame_event(f: Seq<u8>) -> Option<PacketEvent> {
    if !is_ipv4_frame(f) {
        None
    } else {
        let src = Ipv4Address { bits: ip_src_of(f) };
        let dst = Ipv4Address { bits: ip_dst_of(f) };
        let p = ip_protocol_of(f);
        let ihl = f[14] & 0x0F;
        let start = ip_payload_start(f);
        if p == 6 && ihl >= 5 && start + 20 <= f.len() {
            Some(
                PacketEvent::Tcp {
                    src,
                    dst,
                    src_port: be16(f[start], f[start + 1]),
                    dst_port: be16(f[start + 2], f[start + 3]),
                    total_len: ip_total_len_of(f),
                },
            )
        } else if p == 17 && ihl >= 5 && start + 8 <= f.len() {
            Some(
                PacketEvent::Udp {
                    src,
                    dst,
                    src_port: be16(f[start], f[start + 1]),
                    dst_port: be16(f[start + 2], f[start + 3]),
                    total_len: ip_total_len_of(f),
                },
            )
        } else if p == 1 {
            Some(PacketEvent::Icmp { src, dst })
        } else {
            Some(PacketEvent::Other { protocol: p, src, dst })
        }
    }
}

fn read_be16(frame: &Vec<u8>, i: usize) -> (r: u16)
    requires
        i + 1 < frame.len(),
    ensures
        r == be16(frame@[i as int], frame@[i as int + 1]),
{
    (frame[i] as u16) * 256 + (frame[i + 1] as u16)
}

fn read_addr(frame: &Vec<u8>, i: usize) -> (r: Ipv4Address)
    requires
        i + 3 < frame.len(),
    ensures
        r.bits == octets_to_bits(
            frame@[i as int],
            frame@[i as int + 1],
            frame@[i as int + 2],
            frame@[i as int + 3],
        ),
{
    let a = frame[i];
    let b = frame[i + 1];
    let c = frame[i + 2];
    let d = frame[i + 3];
    Ipv4Address { bits: ((a as u32) << 24) | ((b as u32) << 16) | ((c as u32) << 8) | (d as u32) }
}

/// Decode one captured frame into the event it contributes to the tally.
pub fn decode_frame(frame: &Vec<u8>) -> (r: Option<PacketEvent>)
    ensures
        r == frame_event(frame@),
{
    if frame.len() < 34 {
        return None;
    }
    if !(frame[12] == 0x08 && frame[13] == 0x00) {
        return None;
    }
    let src = read_addr(frame, 26);
    let dst = read_addr(frame, 30);
    let p = frame[23];
    let ihl = frame[14] & 0x0F;
    let start: usize = 14 + 4 * (ihl as usize);
    if p == 6 && ihl >= 5 && start + 20 <= frame.len() {
        let total_len = read_be16(frame, 16);
        Some(
            PacketEvent::Tcp {
                src,
                dst,
                src_port: read_be16(frame, start),
                dst_port: read_be16(frame, start + 2),
                total_len,
            },
        )
    } else if p == 17 && ihl >= 5 && start + 8 <= frame.len() {
        let total_len = read_be16(frame, 16);
        Some(
            PacketEvent::Udp {
                src,
                dst,
                src_port: read_be16(frame, start),
                dst_port: read_be16(frame, start + 2),
                total_len,
            },
        )
    } else if p == 1 {
        Some(PacketEvent::Icmp { src, dst })
    } else {
        Some(PacketEvent::Other { protocol: p, src, dst })
    }
}

} // verus!

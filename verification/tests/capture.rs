use netscan::addr::Ipv4Address;
use netscan::ifaces::{select_default_interface, select_local_network, InterfaceAddr, InterfaceFacts};
use netscan::packet::{decode_frame, PacketEvent};
use netscan::traffic::TrafficAnalyzer;

fn ip(a: u8, b: u8, c: u8, d: u8) -> Ipv4Address {
    Ipv4Address::new(a, b, c, d)
}

fn ipv4_frame(protocol: u8, src: [u8; 4], dst: [u8; 4], payload: &[u8]) -> Vec<u8> {
    let mut f = vec![0u8; 12];
    f.extend_from_slice(&[0x08, 0x00]);
    let total_len = (20 + payload.len()) as u16;
    let mut ip_header = [0u8; 20];
    ip_header[0] = 0x45;
    ip_header[2] = (total_len >> 8) as u8;
    ip_header[3] = (total_len & 0xFF) as u8;
    ip_header[8] = 64;
    ip_header[9] = protocol;
    ip_header[12..16].copy_from_slice(&src);
    ip_header[16..20].copy_from_slice(&dst);
    f.extend_from_slice(&ip_header);
    f.extend_from_slice(payload);
    f
}

fn transport_payload(src_port: u16, dst_port: u16, len: usize) -> Vec<u8> {
    let mut p = vec![0u8; len];
    p[0] = (src_port >> 8) as u8;
    p[1] = (src_port & 0xFF) as u8;
    p[2] = (dst_port >> 8) as u8;
    p[3] = (dst_port & 0xFF) as u8;
    p
}

#[test]
fn address_octets_round_trip() {
    let a = ip(192, 168, 1, 10);
    assert_eq!(a.bits, 0xC0A8_010A);
    assert_eq!(a.octets(), (192, 168, 1, 10));
    assert_eq!(Ipv4Address::from_bits(0x0A00_0001), ip(10, 0, 0, 1));
}

#[test]
fn decode_tcp_frame() {
    let frame = ipv4_frame(6, [10, 0, 0, 1], [10, 0, 0, 2], &transport_payload(443, 51000, 20));
    let event = decode_frame(&frame);
    assert_eq!(
        event,
        Some(PacketEvent::Tcp {
            src: ip(10, 0, 0, 1),
            dst: ip(10, 0, 0, 2),
            src_port: 443,
            dst_port: 51000,
            total_len: 40,
        })
    );
}

#[test]
fn decode_udp_and_icmp_frames() {
    let udp = ipv4_frame(17, [192, 168, 1, 3], [192, 168, 1, 255], &transport_payload(137, 137, 8));
    assert_eq!(
        decode_frame(&udp),
        Some(PacketEvent::Udp {
            src: ip(192, 168, 1, 3),
            dst: ip(192, 168, 1, 255),
            src_port: 137,
            dst_port: 137,
            total_len: 28,
        })
    );
    let icmp = ipv4_frame(1, [10, 0, 0, 1], [10, 0, 0, 9], &[]);
    assert_eq!(
        decode_frame(&icmp),
        Some(PacketEvent::Icmp { src: ip(10, 0, 0, 1), dst: ip(10, 0, 0, 9) })
    );
}

#[test]
fn decode_rejects_non_ipv4() {
    let mut arp = vec![0u8; 12];
    arp.extend_from_slice(&[0x08, 0x06]);
    arp.extend_from_slice(&[0u8; 28]);
    assert_eq!(decode_frame(&arp), None);
    assert_eq!(decode_frame(&vec![0u8; 10]), None);
}

#[test]
fn decode_truncated_tcp_counts_as_bare_protocol() {
    // Protocol 6 but no room for the transport header: no ports to read.
    let frame = ipv4_frame(6, [10, 0, 0, 1], [10, 0, 0, 2], &[]);
    assert_eq!(
        decode_frame(&frame),
        Some(PacketEvent::Other { protocol: 6, src: ip(10, 0, 0, 1), dst: ip(10, 0, 0, 2) })
    );
}

#[test]
fn tally_counts_per_protocol() {
    let mut analyzer = TrafficAnalyzer::new();
    let icmp = ipv4_frame(1, [10, 0, 0, 1], [10, 0, 0, 9], &[]);
    let tcp = ipv4_frame(6, [10, 0, 0, 1], [10, 0, 0, 2], &transport_payload(80, 40000, 20));
    let arp_len = 10;
    analyzer.process_frame(&icmp);
    analyzer.process_frame(&tcp);
    analyzer.process_frame(&icmp);
    analyzer.process_frame(&vec![0u8; arp_len]);
    assert_eq!(analyzer.packet_count(1), 2);
    assert_eq!(analyzer.packet_count(6), 1);
    assert_eq!(analyzer.packet_count(17), 0);
    assert_eq!(analyzer.stats(), &vec![(1u8, 2usize), (6u8, 1usize)]);
}

#[test]
fn default_interface_is_first_candidate() {
    let lo = InterfaceFacts {
        up: true,
        loopback: true,
        addrs: vec![InterfaceAddr::V4 { addr: ip(127, 0, 0, 1), prefix: 8 }],
    };
    let down = InterfaceFacts { up: false, loopback: false, addrs: vec![InterfaceAddr::Other] };
    let eth = InterfaceFacts {
        up: true,
        loopback: false,
        addrs: vec![InterfaceAddr::Other, InterfaceAddr::V4 { addr: ip(192, 168, 1, 7), prefix: 24 }],
    };
    let ifaces = vec![lo, down, eth];
    assert_eq!(select_default_interface(&ifaces), Some(2));
    assert_eq!(select_local_network(&ifaces[2]), Some((ip(192, 168, 1, 7), 24)));
}

#[test]
fn local_network_skips_loopback_and_link_local() {
    let iface = InterfaceFacts {
        up: true,
        loopback: false,
        addrs: vec![
            InterfaceAddr::V4 { addr: ip(127, 0, 0, 1), prefix: 8 },
            InterfaceAddr::V4 { addr: ip(169, 254, 7, 7), prefix: 16 },
            InterfaceAddr::V4 { addr: ip(10, 1, 2, 3), prefix: 20 },
        ],
    };
    assert_eq!(select_local_network(&iface), Some((ip(10, 1, 2, 3), 20)));
    let bare = InterfaceFacts {
        up: true,
        loopback: false,
        addrs: vec![InterfaceAddr::V4 { addr: ip(169, 254, 7, 7), prefix: 16 }],
    };
    assert_eq!(select_local_network(&bare), None);
    let no_ifaces: Vec<InterfaceFacts> = Vec::new();
    assert_eq!(select_default_interface(&no_ifaces), None);
}

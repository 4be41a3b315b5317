use netscan::addr::Ipv4Address;
use netscan::chunks::partition_hosts;
use netscan::device::{scan_host, HostObservation};
use netscan::hosts::generate_hosts;
use netscan::ports::common_ports;
use netscan::probe::{evaluate_probe, liveness_ports, LivenessProbe};
use netscan::scanner::{scan_chunk, Inventory, NetworkScanner};

fn ip(a: u8, b: u8, c: u8, d: u8) -> Ipv4Address {
    Ipv4Address::new(a, b, c, d)
}

fn observation(alive: bool, open: &[u16]) -> HostObservation {
    let ports = common_ports();
    let port_open: Vec<bool> = ports.iter().map(|p| open.contains(p)).collect();
    HostObservation { alive, port_open, hostname: None }
}

#[test]
fn slash24_sweep_skips_own_octet() {
    let hosts = generate_hosts(ip(192, 168, 1, 5), 24);
    assert_eq!(hosts.len(), 253);
    for h in &hosts {
        assert_eq!(h.bits & 0xFFFF_FF00, 0xC0A8_0100);
        assert_ne!(h.bits & 0xFF, 5);
    }
    assert_eq!(hosts[0], ip(192, 168, 1, 1));
    assert_eq!(hosts[3], ip(192, 168, 1, 4));
    assert_eq!(hosts[4], ip(192, 168, 1, 6));
    assert_eq!(hosts[252], ip(192, 168, 1, 254));
    for i in 0..hosts.len() {
        for j in (i + 1)..hosts.len() {
            assert_ne!(hosts[i], hosts[j]);
        }
    }
}

#[test]
fn slash24_sweep_with_base_address_keeps_all_254() {
    // The enumerator skips the input's own last octet, not the true network
    // address: a .0 base matches no candidate octet, so nothing is skipped.
    let hosts = generate_hosts(ip(192, 168, 1, 0), 24);
    assert_eq!(hosts.len(), 254);
    assert_eq!(hosts[0], ip(192, 168, 1, 1));
    assert_eq!(hosts[253], ip(192, 168, 1, 254));
}

#[test]
fn prefix_31_uses_the_narrow_range_rule() {
    // Every prefix of 24 or more sweeps the last octet the same way.
    let hosts = generate_hosts(ip(10, 0, 0, 5), 31);
    assert_eq!(hosts.len(), 253);
    assert_eq!(hosts[0], ip(10, 0, 0, 1));
    assert!(!hosts.contains(&ip(10, 0, 0, 5)));
}

#[test]
fn wide_sweep_caps_at_one_thousand() {
    let hosts = generate_hosts(ip(10, 0, 0, 0), 16);
    assert_eq!(hosts.len(), 1000);
    for h in &hosts {
        assert_eq!(h.bits & 0xFFFF_0000, 0x0A00_0000);
    }
    assert_eq!(hosts[0], ip(10, 0, 0, 1));
    assert_eq!(hosts[999], ip(10, 0, 3, 232));
}

#[test]
fn wide_sweep_small_range_is_not_capped() {
    let hosts = generate_hosts(ip(10, 1, 2, 0), 23);
    assert_eq!(hosts.len(), 510);
    assert_eq!(hosts[0], ip(10, 1, 2, 1));
    assert_eq!(hosts[509], ip(10, 1, 3, 254));
}

#[test]
fn partition_three_hosts_five_workers() {
    let hosts = vec![ip(10, 0, 0, 1), ip(10, 0, 0, 2), ip(10, 0, 0, 3)];
    let chunks = partition_hosts(&hosts, 5);
    assert_eq!(chunks.len(), 3);
    for c in &chunks {
        assert_eq!(c.len(), 1);
    }
    let merged: Vec<Ipv4Address> = chunks.into_iter().flatten().collect();
    assert_eq!(merged, hosts);
}

#[test]
fn partition_count_is_ceiling() {
    let hosts: Vec<Ipv4Address> = (1..=10u8).map(|d| ip(10, 0, 0, d)).collect();
    let chunks = partition_hosts(&hosts, 3);
    // chunk size max(10 / 3, 1) = 3; ceil(10 / 3) = 4 chunks
    assert_eq!(chunks.len(), 4);
    assert_eq!(chunks[0].len(), 3);
    assert_eq!(chunks[1].len(), 3);
    assert_eq!(chunks[2].len(), 3);
    assert_eq!(chunks[3].len(), 1);
    let merged: Vec<Ipv4Address> = chunks.into_iter().flatten().collect();
    assert_eq!(merged, hosts);
}

#[test]
fn partition_empty_list_yields_no_chunks() {
    let hosts: Vec<Ipv4Address> = Vec::new();
    let chunks = partition_hosts(&hosts, 4);
    assert_eq!(chunks.len(), 0);
}

#[test]
fn probe_order_and_exhaustion() {
    let mut probe = LivenessProbe::new();
    let mut tried = Vec::new();
    while let Some(port) = probe.next_port() {
        tried.push(port);
        probe.record(false);
    }
    assert_eq!(tried, vec![80, 22, 135, 443, 3389]);
    assert!(!probe.is_alive());
    assert_eq!(liveness_ports(), tried);
}

#[test]
fn probe_stops_at_first_success() {
    let mut probe = LivenessProbe::new();
    assert_eq!(probe.next_port(), Some(80));
    probe.record(false);
    assert_eq!(probe.next_port(), Some(22));
    probe.record(true);
    assert_eq!(probe.next_port(), None);
    assert!(probe.is_alive());
}

#[test]
fn evaluate_probe_counts_attempts() {
    assert_eq!(evaluate_probe(&vec![false, false, false, false, false]), (false, 5));
    assert_eq!(evaluate_probe(&vec![true, false, false, false, false]), (true, 1));
    assert_eq!(evaluate_probe(&vec![false, false, false, false, true]), (true, 5));
}

#[test]
fn identify_services_maps_known_ports() {
    let services = NetworkScanner::identify_services(&vec![22, 80]);
    assert_eq!(services, vec!["SSH".to_string(), "HTTP".to_string()]);
    let all = NetworkScanner::identify_services(&vec![
        21, 22, 23, 25, 53, 80, 110, 135, 139, 143, 443, 445, 993, 995, 1723, 3306, 3389, 5900, 8080,
    ]);
    assert_eq!(all.len(), 19);
    assert_eq!(all[0], "FTP");
    assert_eq!(all[18], "HTTP-Proxy");
}

#[test]
fn identify_services_is_deterministic_and_drops_unknown() {
    let ports = vec![22, 9999, 3389];
    let first = NetworkScanner::identify_services(&ports);
    let second = NetworkScanner::identify_services(&ports);
    assert_eq!(first, second);
    assert_eq!(first, vec!["SSH".to_string(), "RDP".to_string()]);
    assert_eq!(NetworkScanner::identify_services(&Vec::new()), Vec::<String>::new());
}

#[test]
fn scan_host_dead_yields_nothing() {
    let o = observation(false, &[22, 80]);
    assert!(scan_host(ip(192, 168, 1, 9), &o).is_none());
}

#[test]
fn scan_host_live_builds_record() {
    let o = HostObservation { hostname: Some("printer.lan".to_string()), ..observation(true, &[443]) };
    let d = scan_host(ip(192, 168, 1, 9), &o).unwrap();
    assert_eq!(d.ip, ip(192, 168, 1, 9));
    assert!(d.mac.is_none());
    assert_eq!(d.hostname.as_deref(), Some("printer.lan"));
    assert_eq!(d.open_ports, vec![443]);
    assert_eq!(d.services, vec!["HTTPS".to_string()]);
}

#[test]
fn scanner_defaults_and_timeout() {
    let scanner = NetworkScanner::new();
    assert_eq!(scanner.timeout_ms, 1000);
    assert_eq!(scanner.max_threads, 100);
    let scanner = scanner.set_timeout(5000);
    assert_eq!(scanner.timeout_ms, 5000);
    assert_eq!(scanner.max_threads, 100);
}

#[test]
fn sweep_with_one_live_host() {
    let scanner = NetworkScanner::new().set_timeout(500);
    let chunks = scanner.plan_chunks(ip(192, 168, 1, 0), 24);
    let mut inventory = Inventory::new();
    for chunk in &chunks {
        let observations: Vec<HostObservation> = chunk
            .iter()
            .map(|h| observation(*h == ip(192, 168, 1, 10), &[22, 80]))
            .collect();
        scan_chunk(chunk, &observations, &mut inventory);
    }
    let devices = inventory.into_devices();
    assert_eq!(devices.len(), 1);
    assert_eq!(devices[0].ip, ip(192, 168, 1, 10));
    assert_eq!(devices[0].open_ports, vec![22, 80]);
    assert_eq!(devices[0].services, vec!["SSH".to_string(), "HTTP".to_string()]);
    assert!(devices[0].mac.is_none());
    assert!(devices[0].hostname.is_none());
}

#[test]
fn sweep_with_no_live_hosts_is_empty() {
    let scanner = NetworkScanner::new();
    let chunks = scanner.plan_chunks(ip(192, 168, 1, 0), 24);
    let mut inventory = Inventory::new();
    for chunk in &chunks {
        let observations: Vec<HostObservation> =
            chunk.iter().map(|_| observation(false, &[])).collect();
        scan_chunk(chunk, &observations, &mut inventory);
    }
    assert_eq!(inventory.len(), 0);
    assert!(inventory.into_devices().is_empty());
}

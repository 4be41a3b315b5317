use vstd::prelude::*;
use crate::addr::Ipv4Address;
use crate::ports::{collect_open_ports, common_ports_spec, selected_ports};
use crate::scanner::NetworkScanner;
use crate::services::services_spec;

verus! {

/// One entry of the sweep's inventory: a live host and what was learned
/// about it. MAC resolution is a documented placeholder and stays absent.
#[derive(Clone, Debug)]
pub struct DeviceInfo {
    pub ip: Ipv4Address,
    pub mac: Option<String>,
    pub hostname: Option<String>,
    pub open_ports: Vec<u16>,
    pub services: Vec<String>,
}

/// What the network returned for one probed host: whether it answered the
/// liveness probe, the connect outcome of each well-known port in scan
/// order, and the reverse-DNS name where resolution succeeded.
pub struct HostObservation {
    pub alive: bool,
    pub port_open: Vec<bool>,
    pub hostname: Option<String>,
}

impl HostObservation {
    /// One outcome per well-known port.
    pub open spec fn wf(self) -> bool {
        self.port_open@.len() == common_ports_spec().len()
    }
}

/// Whether a device record is exactly what one host's observation calls
/// for: the host's address, no MAC, the observed hostname, the ports that
/// answered in scan order, and their labels from the fixed table.
pub open spec fn record_matches(d: DeviceInfo, ip: Ipv4Address, o: HostObservation) -> bool {
    &&& d.ip == ip
    &&& d.mac is None
    &&& d.hostname == o.hostname
    &&& d.open_ports@ == selected_ports(common_ports_spec(), o.port_open@)
    &&& d.services@.map_values(|s: String| s@) == services_spec(
        selected_ports(common_ports_spec(), o.port_open@),
    )
}

/// Build the record for one probed host: nothing when the host did not
/// answer the liveness probe, otherwise the device entry with its open
/// ports and their service labels. MAC resolution is not implemented, so
/// that field is always absent.
pub fn scan_host(ip: Ipv4Address, observation: &HostObservation) -> (r: Option<DeviceInfo>)
    requires
        observation.wf(),
    ensures
        r is Some <==> observation.alive,
        r is Some ==> record_matches(r->0, ip, *observation),
{
    if !observation.alive {
        return None;
    }
    let open_ports = collect_open_ports(&observation.port_open);
    let services = NetworkScanner::identify_services(&open_ports);
    let hostname = match &observation.hostname {
        Some(h) => Some(h.clone()),
        None => None,
    };
    Some(DeviceInfo { ip, mac: None, hostname, open_ports, services })
}

} // verus!

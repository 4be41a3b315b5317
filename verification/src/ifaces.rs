use vstd::prelude::*;
use crate::addr::Ipv4Address;

verus! {

/// One address assigned to an interface, as far as selection reads it:
/// an IPv4 address with its prefix, or anything else.
#[derive(PartialEq, Eq, Structural, Clone, Copy, Debug)]
pub enum InterfaceAddr {
    V4 { addr: Ipv4Address, prefix: u8 },
    Other,
}

/// What interface selection needs to know of one enumerated interface.
pub struct InterfaceFacts {
    pub up: bool,
    pub loopback: bool,
    pub addrs: Vec<InterfaceAddr>,
}

/// Whether the interface carries any IPv4 address.
pub open spec fn has_ipv4(f: InterfaceFacts) -> bool {
    exists|k: int| 0 <= k < f.addrs@.len() && f.addrs@[k] is V4
}

/// A default-interface candidate: up, not loopback, with an IPv4 address.
pub open spec fn is_default_candidate(f: InterfaceFacts) -> bool {
    f.up && !f.loopback && has_ipv4(f)
}

/// Loopback addresses: 127.0.0.0/8.
pub open spec fn is_loopback_v4(a: Ipv4Address) -> bool {
    a.bits >> 24 == 127
}

/// Link-local addresses: 169.254.0.0/16.
pub open spec fn is_link_local_v4(a: Ipv4Address) -> bool {
    a.bits >> 16 == 0xA9FE
}

/// An address usable as the local sweep target: IPv4, neither loopback
/// nor link-local.
pub open spec fn usable_local(x: InterfaceAddr) -> bool {
    match x {
        InterfaceAddr::V4 { addr, .. } => !is_loopback_v4(addr) && !is_link_local_v4(addr),
        InterfaceAddr::Other => false,
    }
}

fn addr_is_v4(x: &InterfaceAddr) -> (r: bool)
    ensures
        r == (*x is V4),
{
    match x {
        InterfaceAddr::V4 { .. } => true,
        InterfaceAddr::Other => false,
    }
}

fn facts_have_ipv4(f: &InterfaceFacts) -> (r: bool)
    ensures
        r == has_ipv4(*f),
{
    let n = f.addrs.len();
    let mut k: usize = 0;
    while k < n
        invariant
            n == f.addrs@.len(),
            k <= n,
            forall|j: int| 0 <= j < k ==> !(f.addrs@[j] is V4),
        decreases n - k,
    {
        if addr_is_v4(&f.addrs[k]) {
            return true;
        }
        k = k + 1;
    }
    false
}

/// Pick the default interface: the first in enumeration order that is up,
/// not loopback, and holds an IPv4 address. No metric or priority logic.
pub fn select_default_interface(ifaces: &Vec<InterfaceFacts>) -> (r: Option<usize>)
    ensures
        match r {
            Some(i) => {
                &&& i < ifaces@.len()
                &&& is_default_candidate(ifaces@[i as int])
                &&& forall|j: int| 0 <= j < i ==> !is_default_candidate(ifaces@[j])
            },
            None => forall|j: int| 0 <= j < ifaces@.len() ==> !is_default_candidate(ifaces@[j]),
        },
{
    let n = ifaces.len();
    let mut i: usize = 0;
    while i < n
        invariant
            n == ifaces@.len(),
            i <= n,
            forall|j: int| 0 <= j < i ==> !is_default_candidate(ifaces@[j]),
        decreases n - i,
    {
        let f = &ifaces[i];
        if f.up && !f.loopback && facts_have_ipv4(f) {
            return Some(i);
        }
        i = i + 1;
    }
    None
}

/// The sweep target one interface offers: its first IPv4 address that is
/// neither loopback nor link-local, with that address's own prefix.
pub fn select_local_network(iface: &InterfaceFacts) -> (r: Option<(Ipv4Address, u8)>)
    ensures
        match r {
            Some(t) => exists|k: int|
                {
                    &&& 0 <= k < iface.addrs@.len()
                    &&& iface.addrs@[k] == (InterfaceAddr::V4 { addr: t.0, prefix: t.1 })
                    &&& #[trigger] usable_local(iface.addrs@[k])
                    &&& forall|j: int| 0 <= j < k ==> !usable_local(iface.addrs@[j])
                },
            None => forall|j: int| 0 <= j < iface.addrs@.len() ==> !usable_local(iface.addrs@[j]),
        },
{
    let n = iface.addrs.len();
    let mut k: usize = 0;
    while k < n
        invariant
            n == iface.addrs@.len(),
            k <= n,
            forall|j: int| 0 <= j < k ==> !usable_local(iface.addrs@[j]),
        decreases n - k,
    {
        match &iface.addrs[k] {
            InterfaceAddr::V4 { addr, prefix } => {
                let hi = addr.bits >> 24;
                let hi2 = addr.bits >> 16;
                if hi != 127 && hi2 != 0xA9FE {
                    proof {
                        assert(iface.addrs@[k as int] == (InterfaceAddr::V4 { addr: *addr, prefix: *prefix }));
                        assert(usable_local(iface.addrs@[k as int]));
                    }
                    return Some((*addr, *prefix));
                }
            },
            InterfaceAddr::Other => {},
        }
        k = k + 1;
    }
    None
}

} // verus!

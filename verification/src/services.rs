use vstd::prelude::*;
use vstd::string::StringExecFns;
use crate::scanner::NetworkScanner;

verus! {

/// The fixed port-to-service table: the label for a port, if it has one.
pub open spec fn service_label(port: u16) -> Option<Seq<char>> {
    if port == 21 {
        Some("FTP"@)
    } else if port == 22 {
        Some("SSH"@)
    } else if port == 23 {
        Some("Telnet"@)
    } else if port == 25 {
        Some("SMTP"@)
    } else if port == 53 {
        Some("DNS"@)
    } else if port == 80 {
        Some("HTTP"@)
    } else if port == 110 {
        Some("POP3"@)
    } else if port == 135 {
        Some("RPC"@)
    } else if port == 139 {
        Some("NetBIOS"@)
    } else if port == 143 {
        Some("IMAP"@)
    } else if port == 443 {
        Some("HTTPS"@)
    } else if port == 445 {
        Some("SMB"@)
    } else if port == 993 {
        Some("IMAPS"@)
    } else if port == 995 {
        Some("POP3S"@)
    } else if port == 1723 {
        Some("PPTP"@)
    } else if port == 3306 {
        Some("MySQL"@)
    } else if port == 3389 {
        Some("RDP"@)
    } else if port == 5900 {
        Some("VNC"@)
    } else if port == 8080 {
        Some("HTTP-Proxy"@)
    } else {
        None
    }
}

/// The labels of the ports that have one, in port-list order; ports with
/// no table entry are silently omitted.
pub open spec fn services_spec(ports: Seq<u16>) -> Seq<Seq<char>>
    decreases ports.len(),
{
    if ports.len() == 0 {
        Seq::empty()
    } else {
        let rest = services_spec(ports.drop_last());
        match service_label(ports.last()) {
            Some(l) => rest.push(l),
            None => rest,
        }
    }
}

/// The label for one port from the fixed table, if any.
pub fn service_label_for(port: u16) -> (r: Option<String>)
    ensures
        r is Some <==> service_label(port) is Some,
        r is Some ==> service_label(port) == Some(r->0@),
{
    match port {
        21 => Some(String::from_str("FTP")),
        22 => Some(String::from_str("SSH")),
        23 => Some(String::from_str("Telnet")),
        25 => Some(String::from_str("SMTP")),
        53 => Some(String::from_str("DNS")),
        80 => Some(String::from_str("HTTP")),
        110 => Some(String::from_str("POP3")),
        135 => Some(String::from_str("RPC")),
        139 => Some(String::from_str("NetBIOS")),
        143 => Some(String::from_str("IMAP")),
        443 => Some(String::from_str("HTTPS")),
        445 => Some(String::from_str("SMB")),
        993 => Some(String::from_str("IMAPS")),
        995 => Some(String::from_str("POP3S")),
        1723 => Some(String::from_str("PPTP")),
        3306 => Some(String::from_str("MySQL")),
        3389 => Some(String::from_str("RDP")),
        5900 => Some(String::from_str("VNC")),
        8080 => Some(String::from_str("HTTP-Proxy")),
        _ => None,
    }
}

impl NetworkScanner {
    /// Map each open port, in order, to its service label from the fixed
    /// table; a port with no entry contributes nothing.
    pub fn identify_services(ports: &Vec<u16>) -> (services: Vec<String>)
        ensures
            services@.map_values(|s: String| s@) == services_spec(ports@),
    {
        let mut services: Vec<String> = Vec::new();
        let mut i: usize = 0;
        while i < ports.len()
            invariant
                i <= ports@.len(),
                services@.map_values(|s: String| s@) == services_spec(ports@.take(i as int)),
            decreases ports@.len() - i,
        {
            let ghost prev = services@;
            let p = ports[i];
            match service_label_for(p) {
                Some(s) => {
                    services.push(s);
                },
                None => {},
            }
            proof {
                assert(ports@.take(i + 1).drop_last() =~= ports@.take(i as int));
                assert(ports@.take(i + 1).last() == ports@[i as int]);
                if service_label(p) is Some {
                    assert(services@ == prev.push(services@.last()));
                    assert(services@.map_values(|s: String| s@) =~= prev.map_values(|s: String| s@).push(
                        services@.last()@,
                    ));
                }
            }
            i = i + 1;
        }
        proof {
            assert(ports@.take(ports@.len() as int) =~= ports@);
        }
        services
    }
}

/// Re-running service identification on the same open-port list always
/// yields label lists with the same contents: the outcome is a function of
/// the port list alone.
pub proof fn lemma_identify_idempotent(
    ports: Seq<u16>,
    first: Seq<Seq<char>>,
    second: Seq<Seq<char>>,
)
    requires
        first == services_spec(ports),
        second == services_spec(ports),
    ensures
        first == second,
{
}

/// Every label that identification yields comes out of the fixed table,
/// and there are never more labels than open ports.
pub proof fn lemma_services_from_table(ports: Seq<u16>)
    ensures
        forall|k: int|
            0 <= k < services_spec(ports).len() ==> exists|p: u16|
                service_label(p) == Some(#[trigger] services_spec(ports)[k]),
        services_spec(ports).len() <= ports.len(),
    decreases ports.len(),
{
    if ports.len() > 0 {
        lemma_services_from_table(ports.drop_last());
        let s = services_spec(ports);
        let rest = services_spec(ports.drop_last());
        assert forall|k: int| 0 <= k < s.len() implies exists|p: u16|
            service_label(p) == Some(#[trigger] s[k]) by {
            if k < rest.len() {
                assert(s[k] == rest[k]);
            } else {
                let last = ports.last();
                assert(service_label(last) == Some(s[k]));
            }
        }
    }
}

} // verus!

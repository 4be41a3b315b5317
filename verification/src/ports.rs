use vstd::prelude::*;

verus! {

/// The fixed well-known ports the scanner tries for a live host, in order.
pub open spec fn common_ports_spec() -> Seq<u16> {
    seq![
        21u16,
        22u16,
        23u16,
        25u16,
        53u16,
        80u16,
        110u16,
        135u16,
        139u16,
        143u16,
        443u16,
        445u16,
        993u16,
        995u16,
        1723u16,
        3306u16,
        3389u16,
        5900u16,
        8080u16,
    ]
}

pub fn common_ports() -> (r: Vec<u16>)
    ensures
        r@ == common_ports_spec(),
{
    let mut v: Vec<u16> = Vec::new();
    v.push(21);
    v.push(22);
    v.push(23);
    v.push(25);
    v.push(53);
    v.push(80);
    v.push(110);
    v.push(135);
    v.push(139);
    v.push(143);
    v.push(443);
    v.push(445);
    v.push(993);
    v.push(995);
    v.push(1723);
    v.push(3306);
    v.push(3389);
    v.push(5900);
    v.push(8080);
    proof {
        assert(v@ =~= common_ports_spec());
    }
    v
}

/// The ports whose connect attempt succeeded, kept in scan order.
pub open spec fn selected_ports(ports: Seq<u16>, outcomes: Seq<bool>) -> Seq<u16>
    recommends
        outcomes.len() == ports.len(),
    decreases ports.len(),
{
    if ports.len() == 0 || outcomes.len() == 0 {
        Seq::empty()
    } else {
        let rest = selected_ports(ports.drop_last(), outcomes.drop_last());
        if outcomes.last() {
            rest.push(ports.last())
        } else {
            rest
        }
    }
}

/// The open-port list for one host, given the connect outcome of each
/// well-known port in scan order: exactly the ports that answered.
pub fn collect_open_ports(outcomes: &Vec<bool>) -> (open: Vec<u16>)
    requires
        outcomes@.len() == common_ports_spec().len(),
    ensures
        open@ == selected_ports(common_ports_spec(), outcomes@),
{
    let ports = common_ports();
    let mut open: Vec<u16> = Vec::new();
    let mut i: usize = 0;
    while i < ports.len()
        invariant
            ports@ == common_ports_spec(),
            outcomes@.len() == ports@.len(),
            i <= ports@.len(),
            open@ == selected_ports(ports@.take(i as int), outcomes@.take(i as int)),
        decreases ports@.len() - i,
    {
        if outcomes[i] {
            let p = ports[i];
            open.push(p);
        }
        proof {
            assert(ports@.take(i + 1).drop_last() =~= ports@.take(i as int));
            assert(outcomes@.take(i + 1).drop_last() =~= outcomes@.take(i as int));
        }
        i = i + 1;
    }
    proof {
        assert(ports@.take(ports@.len() as int) =~= ports@);
        assert(outcomes@.take(outcomes@.len() as int) =~= outcomes@);
    }
    open
}

} // verus!

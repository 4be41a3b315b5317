use vstd::prelude::*;
use crate::addr::Ipv4Address;

verus! {

/// Addresses probed when the range is /24 or smaller: one per last octet
/// 1..=n, in increasing order, skipping the network's own last octet.
pub open spec fn swept_hosts(network: u32, n: nat) -> Seq<Ipv4Address>
    decreases n,
{
    if n == 0 {
        Seq::empty()
    } else {
        let rest = swept_hosts(network, (n - 1) as nat);
        if n == network & 0xFF {
            rest
        } else {
            rest.push(Ipv4Address { bits: (network & 0xFFFFFF00) | (n as u32) })
        }
    }
}

/// How many hosts a wide range (prefix below 24) contributes: the usable
/// host count 2^(32-prefix) - 2, capped at 1000 to bound sweep time.
pub open spec fn capped_host_count(prefix: u8) -> int
    recommends
        prefix < 24,
{
    let total = (1u64 << ((32 - prefix) as u64)) - 2;
    if total < 1000 {
        total
    } else {
        1000
    }
}

/// The ordered candidate host list for one sweep of `network/prefix`.
pub open spec fn candidate_hosts(network: u32, prefix: u8) -> Seq<Ipv4Address>
    recommends
        prefix <= 32,
{
    if prefix >= 24 {
        swept_hosts(network, 254)
    } else {
        Seq::new(capped_host_count(prefix) as nat, |k: int| Ipv4Address { bits: network | ((k + 1) as u32) })
    }
}

/// The subnet mask for a prefix: the top `prefix` bits set.
pub open spec fn netmask(prefix: u8) -> u32
    recommends
        prefix <= 32,
{
    if prefix == 0 {
        0
    } else {
        0xFFFFFFFFu32 << ((32 - prefix) as u32)
    }
}

/// Enumerate the candidate hosts of `network/prefix`, in probe order.
///
/// For prefix >= 24 this walks last octets 1..=254 and skips the network's
/// own last octet; for wider ranges it ORs host offsets 1..=capped count
/// into the network address as given (the address is not re-normalized).
pub fn generate_hosts(network: Ipv4Address, prefix: u8) -> (hosts: Vec<Ipv4Address>)
    requires
        prefix <= 32,
    ensures
        hosts@ == candidate_hosts(network.bits, prefix),
{
    let mut hosts: Vec<Ipv4Address> = Vec::new();
    if prefix >= 24 {
        let own: u32 = network.bits & 0xFF;
        let base: u32 = network.bits & 0xFFFFFF00;
        let mut i: u32 = 1;
        while i <= 254
            invariant
                1 <= i <= 255,
                own == network.bits & 0xFF,
                base == network.bits & 0xFFFFFF00,
                hosts@ == swept_hosts(network.bits, (i - 1) as nat),
            decreases 255 - i,
        {
            if i != own {
                hosts.push(Ipv4Address { bits: base | i });
            }
            i = i + 1;
        }
    } else {
        let shift: u64 = (32 - prefix) as u64;
        proof {
            assert(1u64 << shift >= 2) by (bit_vector)
                requires
                    9 <= shift <= 32,
            ;
        }
        let total: u64 = (1u64 << shift) - 2;
        let bound: u64 = if total < 1000 { total } else { 1000 };
        assert(bound == capped_host_count(prefix));
        let mut i: u64 = 1;
        while i <= bound
            invariant
                1 <= i <= bound + 1,
                bound == capped_host_count(prefix),
                bound <= 1000,
                hosts@ =~= Seq::new((i - 1) as nat, |k: int| Ipv4Address { bits: network.bits | ((k + 1) as u32) }),
            decreases bound + 1 - i,
        {
            hosts.push(Ipv4Address { bits: network.bits | (i as u32) });
            i = i + 1;
        }
        assert(hosts@ =~= candidate_hosts(network.bits, prefix));
    }
    hosts
}

proof fn lemma_swept_hosts_shape(network: u32, n: nat)
    requires
        n <= 254,
    ensures
        ({
            let s = swept_hosts(network, n);
            let own = network & 0xFF;
            &&& s.len() == if 1 <= own <= n { n - 1 } else { n as int }
            &&& forall|k: int| 0 <= k < s.len() ==> (#[trigger] s[k]).bits & 0xFFFFFF00 == network & 0xFFFFFF00
            &&& forall|k: int| 0 <= k < s.len() ==> 1 <= (#[trigger] s[k]).bits & 0xFF <= n && s[k].bits & 0xFF != own
            &&& forall|k: int, j: int| 0 <= k < j < s.len() ==> (#[trigger] s[k]).bits & 0xFF < (#[trigger] s[j]).bits & 0xFF
        }),
    decreases n,
{
    if n > 0 {
        lemma_swept_hosts_shape(network, (n - 1) as nat);
        let d: u32 = n as u32;
        let b: u32 = network;
        assert(((b & 0xFFFFFF00) | d) & 0xFFFFFF00 == b & 0xFFFFFF00 && ((b & 0xFFFFFF00) | d) & 0xFF == d)
            by (bit_vector)
            requires
                1 <= d <= 254,
        ;
    }
}

/// For any prefix of 24 or more, when the network's own last octet is itself
/// a candidate value (1..=254), the enumerator yields exactly 253 addresses,
/// all sharing the network's top three octets, no address repeated.
pub proof fn lemma_narrow_range_sweep(network: u32, prefix: u8)
    requires
        24 <= prefix <= 32,
        1 <= network & 0xFF <= 254,
    ensures
        candidate_hosts(network, prefix).len() == 253,
        forall|k: int|
            0 <= k < 253 ==> (#[trigger] candidate_hosts(network, prefix)[k]).bits & 0xFFFFFF00 == network
                & 0xFFFFFF00,
        forall|k: int, j: int|
            0 <= k < j < 253 ==> candidate_hosts(network, prefix)[k] != candidate_hosts(network, prefix)[j],
{
    lemma_swept_hosts_shape(network, 254);
    let s = candidate_hosts(network, prefix);
    assert forall|k: int, j: int| 0 <= k < j < 253 implies s[k] != s[j] by {
        assert(s[k].bits & 0xFF < s[j].bits & 0xFF);
    }
}

/// For a prefix below 24 the enumerator yields min(2^(32-prefix) - 2, 1000)
/// addresses, and every one lies inside the subnet: masking off the host
/// bits gives the same value as masking the network address given.
pub proof fn lemma_wide_range_sweep(network: u32, prefix: u8)
    requires
        prefix < 24,
    ensures
        candidate_hosts(network, prefix).len() == capped_host_count(prefix),
        forall|k: int|
            0 <= k < candidate_hosts(network, prefix).len() ==> (#[trigger] candidate_hosts(network, prefix)[k]).bits
                & netmask(prefix) == network & netmask(prefix),
{
    let s = candidate_hosts(network, prefix);
    let shift: u64 = (32 - prefix) as u64;
    assert((1u64 << shift) - 2 >= 2) by (bit_vector)
        requires
            9 <= shift <= 32,
    ;
    assert forall|k: int| 0 <= k < s.len() implies (#[trigger] s[k]).bits & netmask(prefix) == network & netmask(
        prefix,
    ) by {
        let i: u32 = (k + 1) as u32;
        assert(s[k].bits == network | i);
        if prefix == 0 {
            assert((network | i) & 0 == network & 0) by (bit_vector);
        } else {
            assert((network | i) & (0xFFFFFFFFu32 << ((32 - prefix) as u32)) == network & (0xFFFFFFFFu32 << ((32
                - prefix) as u32))) by (bit_vector)
                requires
                    1 <= prefix < 24,
                    (i as u64) < (1u64 << ((32 - prefix) as u64)),
                    i >= 1,
            ;
        }
    }
}

} // verus!

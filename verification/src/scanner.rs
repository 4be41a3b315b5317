use vstd::prelude::*;
use vstd::pervasive::arbitrary;
use crate::addr::Ipv4Address;
use crate::chunks::{chunk_size_for, chunks_of, partition_hosts};
use crate::device::{record_matches, scan_host, DeviceInfo, HostObservation};
use crate::hosts::{candidate_hosts, generate_hosts};

verus! {

/// Configuration of one sweep: per-connect timeout (milliseconds) and the
/// cap on concurrently scanning workers.
pub struct NetworkScanner {
    pub timeout_ms: u64,
    pub max_threads: usize,
}

impl NetworkScanner {
    /// A scanner with the default configuration: 1000 ms timeout, at most
    /// 100 workers.
    pub fn new() -> (r: Self)
        ensures
            r.timeout_ms == 1000,
            r.max_threads == 100,
    {
        NetworkScanner { timeout_ms: 1000, max_threads: 100 }
    }

    /// The same scanner with the timeout replaced.
    pub fn set_timeout(self, timeout_ms: u64) -> (r: Self)
        ensures
            r.timeout_ms == timeout_ms,
            r.max_threads == self.max_threads,
    {
        NetworkScanner { timeout_ms, max_threads: self.max_threads }
    }

    /// The candidate hosts this scanner would sweep for `network/prefix`.
    pub fn generate_hosts(&self, network: Ipv4Address, prefix: u8) -> (hosts: Vec<Ipv4Address>)
        requires
            prefix <= 32,
        ensures
            hosts@ == candidate_hosts(network.bits, prefix),
    {
        generate_hosts(network, prefix)
    }

    /// The full sweep plan: the candidate hosts of `network/prefix`, split
    /// into contiguous chunks, one chunk per worker.
    pub fn plan_chunks(&self, network: Ipv4Address, prefix: u8) -> (chunks: Vec<Vec<Ipv4Address>>)
        requires
            prefix <= 32,
            self.max_threads >= 1,
        ensures
            chunks@.map_values(|c: Vec<Ipv4Address>| c@) == chunks_of(
                candidate_hosts(network.bits, prefix),
                chunk_size_for(candidate_hosts(network.bits, prefix).len(), self.max_threads as nat),
            ),
    {
        let hosts = generate_hosts(network, prefix);
        partition_hosts(&hosts, self.max_threads)
    }
}

/// The shared inventory one sweep accumulates. Workers only append to it,
/// each append under the coordinator's lock; once every worker has joined
/// it is read out as the sweep's result.
pub struct Inventory {
    pub devices: Vec<DeviceInfo>,
}

impl Inventory {
    pub fn new() -> (r: Self)
        ensures
            r.devices@.len() == 0,
    {
        Inventory { devices: Vec::new() }
    }

    /// Append one device record; nothing already recorded moves.
    pub fn append(&mut self, d: DeviceInfo)
        ensures
            final(self).devices@ == old(self).devices@.push(d),
    {
        self.devices.push(d);
    }

    pub fn len(&self) -> (n: usize)
        ensures
            n == self.devices@.len(),
    {
        self.devices.len()
    }

    pub fn into_devices(self) -> (v: Vec<DeviceInfo>)
        ensures
            v@ == self.devices@,
    {
        self.devices
    }
}

/// Whether `recs` is exactly the record sequence a worker appends for this
/// chunk: one matching record per live host, in chunk order, and nothing
/// for hosts that did not answer.
pub open spec fn chunk_records_match(
    chunk: Seq<Ipv4Address>,
    obs: Seq<HostObservation>,
    recs: Seq<DeviceInfo>,
) -> bool
    decreases chunk.len(),
{
    if chunk.len() == 0 || obs.len() == 0 {
        recs.len() == 0
    } else {
        let o = obs.first();
        if o.alive {
            &&& recs.len() >= 1
            &&& record_matches(recs.first(), chunk.first(), o)
            &&& chunk_records_match(chunk.drop_first(), obs.drop_first(), recs.drop_first())
        } else {
            chunk_records_match(chunk.drop_first(), obs.drop_first(), recs)
        }
    }
}

proof fn lemma_chunk_records_extend(
    chunk: Seq<Ipv4Address>,
    obs: Seq<HostObservation>,
    recs: Seq<DeviceInfo>,
    ip: Ipv4Address,
    o: HostObservation,
    d: DeviceInfo,
)
    requires
        chunk.len() == obs.len(),
        chunk_records_match(chunk, obs, recs),
        o.alive ==> record_matches(d, ip, o),
    ensures
        chunk_records_match(
            chunk.push(ip),
            obs.push(o),
            if o.alive {
                recs.push(d)
            } else {
                recs
            },
        ),
    decreases chunk.len(),
{
    let recs2 = if o.alive {
        recs.push(d)
    } else {
        recs
    };
    if chunk.len() == 0 {
        assert(chunk.push(ip).drop_first() =~= Seq::<Ipv4Address>::empty());
        assert(obs.push(o).drop_first() =~= Seq::<HostObservation>::empty());
        assert(recs =~= Seq::<DeviceInfo>::empty());
        if o.alive {
            assert(recs2.drop_first() =~= Seq::<DeviceInfo>::empty());
        }
        assert(chunk_records_match(
            Seq::<Ipv4Address>::empty(),
            Seq::<HostObservation>::empty(),
            Seq::<DeviceInfo>::empty(),
        ));
    } else {
        assert(chunk.push(ip).drop_first() =~= chunk.drop_first().push(ip));
        assert(obs.push(o).drop_first() =~= obs.drop_first().push(o));
        if obs.first().alive {
            lemma_chunk_records_extend(chunk.drop_first(), obs.drop_first(), recs.drop_first(), ip, o, d);
            if o.alive {
                assert(recs2.drop_first() =~= recs.drop_first().push(d));
            }
        } else {
            lemma_chunk_records_extend(chunk.drop_first(), obs.drop_first(), recs, ip, o, d);
        }
    }
}

/// One worker's pass over its chunk, the per-host probe results already in
/// hand: append a record for every live host, in chunk order. Everything
/// already in the inventory stays untouched.
pub fn scan_chunk(
    chunk: &Vec<Ipv4Address>,
    observations: &Vec<HostObservation>,
    inventory: &mut Inventory,
)
    requires
        chunk@.len() == observations@.len(),
        forall|k: int| 0 <= k < observations@.len() ==> (#[trigger] observations@[k]).wf(),
    ensures
        old(inventory).devices@.is_prefix_of(final(inventory).devices@),
        chunk_records_match(
            chunk@,
            observations@,
            final(inventory).devices@.skip(old(inventory).devices@.len() as int),
        ),
{
    let ghost base = inventory.devices@;
    let n = chunk.len();
    let mut i: usize = 0;
    proof {
        assert(inventory.devices@.skip(base.len() as int) =~= Seq::<DeviceInfo>::empty());
        assert(chunk@.take(0) =~= Seq::<Ipv4Address>::empty());
        assert(observations@.take(0) =~= Seq::<HostObservation>::empty());
    }
    while i < n
        invariant
            n == chunk@.len(),
            chunk@.len() == observations@.len(),
            forall|k: int| 0 <= k < observations@.len() ==> (#[trigger] observations@[k]).wf(),
            i <= n,
            base.len() <= inventory.devices@.len(),
            base =~= inventory.devices@.take(base.len() as int),
            chunk_records_match(
                chunk@.take(i as int),
                observations@.take(i as int),
                inventory.devices@.skip(base.len() as int),
            ),
        decreases n - i,
    {
        let ghost prev = inventory.devices@;
        let ip = chunk[i];
        let o = &observations[i];
        let outcome = scan_host(ip, o);
        match outcome {
            Some(d) => {
                inventory.append(d);
            },
            None => {},
        }
        proof {
            assert(chunk@.take(i + 1) =~= chunk@.take(i as int).push(chunk@[i as int]));
            assert(observations@.take(i + 1) =~= observations@.take(i as int).push(
                observations@[i as int],
            ));
            if observations@[i as int].alive {
                let d = inventory.devices@.last();
                lemma_chunk_records_extend(
                    chunk@.take(i as int),
                    observations@.take(i as int),
                    prev.skip(base.len() as int),
                    ip,
                    observations@[i as int],
                    d,
                );
                assert(inventory.devices@.skip(base.len() as int) =~= prev.skip(
                    base.len() as int,
                ).push(d));
                assert(inventory.devices@.take(base.len() as int) =~= prev.take(base.len() as int));
            } else {
                lemma_chunk_records_extend(
                    chunk@.take(i as int),
                    observations@.take(i as int),
                    prev.skip(base.len() as int),
                    ip,
                    observations@[i as int],
                    arbitrary(),
                );
            }
        }
        i = i + 1;
    }
    proof {
        assert(chunk@.take(n as int) =~= chunk@);
        assert(observations@.take(n as int) =~= observations@);
        assert(base.is_prefix_of(inventory.devices@));
    }
}

} // verus!

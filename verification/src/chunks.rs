use vstd::prelude::*;
use vstd::arithmetic::div_mod::{lemma_fundamental_div_mod, lemma_fundamental_div_mod_converse};
use crate::addr::Ipv4Address;

verus! {

/// The chunk size the coordinator uses for a host list of length `len`
/// under a worker cap of `cap`: max(len / cap, 1).
pub open spec fn chunk_size_for(len: nat, cap: nat) -> nat
    recommends
        cap >= 1,
{
    if len / cap < 1 {
        1
    } else {
        len / cap
    }
}

/// A sequence split into contiguous chunks of `size`; the last chunk may be
/// shorter, and an empty sequence yields no chunks.
pub open spec fn chunks_of<T>(s: Seq<T>, size: nat) -> Seq<Seq<T>>
    recommends
        size >= 1,
    decreases s.len(),
{
    if size == 0 || s.len() == 0 {
        Seq::empty()
    } else if s.len() <= size {
        seq![s]
    } else {
        seq![s.take(size as int)] + chunks_of(s.skip(size as int), size)
    }
}

/// Partition the host list into contiguous chunks sized for `max_workers`
/// parallel workers, in order.
pub fn partition_hosts(hosts: &Vec<Ipv4Address>, max_workers: usize) -> (chunks: Vec<Vec<Ipv4Address>>)
    requires
        max_workers >= 1,
    ensures
        chunks@.map_values(|c: Vec<Ipv4Address>| c@) == chunks_of(
            hosts@,
            chunk_size_for(hosts@.len(), max_workers as nat),
        ),
{
    let n = hosts.len();
    let q = n / max_workers;
    let size: usize = if q == 0 { 1 } else { q };
    let mut chunks: Vec<Vec<Ipv4Address>> = Vec::new();
    let mut i: usize = 0;
    proof {
        assert(hosts@.skip(0) =~= hosts@);
        assert(chunks@.map_values(|c: Vec<Ipv4Address>| c@) + chunks_of(hosts@.skip(0), size as nat)
            =~= chunks_of(hosts@, size as nat));
    }
    while i < n
        invariant
            n == hosts@.len(),
            size == chunk_size_for(hosts@.len(), max_workers as nat),
            size >= 1,
            i <= n,
            chunks@.map_values(|c: Vec<Ipv4Address>| c@) + chunks_of(hosts@.skip(i as int), size as nat)
                == chunks_of(hosts@, size as nat),
        decreases n - i,
    {
        let remaining = n - i;
        let take = if remaining < size {
            remaining
        } else {
            size
        };
        let mut chunk: Vec<Ipv4Address> = Vec::new();
        let mut j: usize = 0;
        while j < take
            invariant
                n == hosts@.len(),
                i + take <= n,
                j <= take,
                chunk@ == hosts@.subrange(i as int, i + j),
            decreases take - j,
        {
            let h = hosts[i + j];
            chunk.push(h);
            assert(chunk@ =~= hosts@.subrange(i as int, i + j + 1));
            j = j + 1;
        }
        proof {
            let rest = hosts@.skip(i as int);
            if rest.len() <= size {
                assert(chunk@ =~= rest);
                assert(chunks_of(rest, size as nat) == seq![rest]);
            } else {
                assert(chunk@ =~= rest.take(size as int));
                assert(rest.skip(size as int) =~= hosts@.skip(i + take));
            }
            assert(chunks@.push(chunk).map_values(|c: Vec<Ipv4Address>| c@) =~= chunks@.map_values(
                |c: Vec<Ipv4Address>| c@,
            ).push(chunk@));
            assert(chunks@.map_values(|c: Vec<Ipv4Address>| c@).push(chunk@) + chunks_of(
                hosts@.skip(i + take),
                size as nat,
            ) =~= chunks@.map_values(|c: Vec<Ipv4Address>| c@) + chunks_of(hosts@.skip(i as int), size as nat));
        }
        chunks.push(chunk);
        i = i + take;
    }
    proof {
        assert(hosts@.skip(i as int) =~= Seq::<Ipv4Address>::empty());
        assert(chunks@.map_values(|c: Vec<Ipv4Address>| c@) + chunks_of(hosts@.skip(i as int), size as nat)
            =~= chunks@.map_values(|c: Vec<Ipv4Address>| c@));
    }
    chunks
}

/// Concatenating the chunks, in order, reconstructs the original sequence.
pub proof fn lemma_chunks_flatten<T>(s: Seq<T>, size: nat)
    requires
        size >= 1,
    ensures
        chunks_of(s, size).flatten() == s,
    decreases s.len(),
{
    if s.len() == 0 {
        assert(chunks_of(s, size).flatten() =~= s);
    } else if s.len() <= size {
        let c = chunks_of(s, size);
        assert(c == seq![s]);
        assert(c.drop_first() =~= Seq::<Seq<T>>::empty());
        assert(c.drop_first().flatten() == Seq::<T>::empty());
        assert(c.first() == s);
        assert(c.flatten() =~= s);
    } else {
        lemma_chunks_flatten(s.skip(size as int), size);
        let c = chunks_of(s, size);
        assert(c.len() >= 1);
        assert(c.drop_first() =~= chunks_of(s.skip(size as int), size));
        assert(c.flatten() =~= s.take(size as int) + s.skip(size as int));
        assert(s.take(size as int) + s.skip(size as int) =~= s);
    }
}

/// The number of chunks is the ceiling of len / size.
pub proof fn lemma_chunks_count<T>(s: Seq<T>, size: nat)
    requires
        size >= 1,
    ensures
        chunks_of(s, size).len() == (s.len() + size - 1) / (size as int),
    decreases s.len(),
{
    let l = s.len() as int;
    let d = size as int;
    if s.len() == 0 {
        lemma_fundamental_div_mod_converse(d - 1, d, 0, d - 1);
    } else if s.len() <= size {
        lemma_fundamental_div_mod_converse(l + d - 1, d, 1, l - 1);
    } else {
        lemma_chunks_count(s.skip(d), size);
        lemma_fundamental_div_mod(l - 1, d);
        let q = (l - 1) / d;
        let r = (l - 1) % d;
        assert((q + 1) * d == q * d + d) by (nonlinear_arith);
        lemma_fundamental_div_mod_converse(l + d - 1, d, q + 1, r);
    }
}

/// Every chunk is non-empty and no longer than the chunk size, and every
/// chunk but the last is exactly the chunk size.
pub proof fn lemma_chunks_sizes<T>(s: Seq<T>, size: nat)
    requires
        size >= 1,
    ensures
        forall|k: int|
            0 <= k < chunks_of(s, size).len() ==> 1 <= (#[trigger] chunks_of(s, size)[k]).len() <= size,
        forall|k: int|
            0 <= k < chunks_of(s, size).len() - 1 ==> (#[trigger] chunks_of(s, size)[k]).len() == size,
    decreases s.len(),
{
    if s.len() == 0 {
    } else if s.len() <= size {
    } else {
        lemma_chunks_sizes(s.skip(size as int), size);
        let c = chunks_of(s, size);
        let rest = chunks_of(s.skip(size as int), size);
        assert forall|k: int| 0 <= k < c.len() implies 1 <= (#[trigger] c[k]).len() <= size by {
            if k > 0 {
                assert(c[k] == rest[k - 1]);
            }
        }
        assert forall|k: int| 0 <= k < c.len() - 1 implies (#[trigger] c[k]).len() == size by {
            if k > 0 {
                assert(c[k] == rest[k - 1]);
            }
        }
    }
}

/// Partitioning a host list of length L for a worker cap C yields exactly
/// ceil(L / max(L/C, 1)) chunks, each non-empty, and concatenating them in
/// order gives back the original list.
pub proof fn lemma_partition_shape<T>(s: Seq<T>, cap: nat)
    requires
        cap >= 1,
    ensures
        ({
            let size = chunk_size_for(s.len(), cap);
            let cs = chunks_of(s, size);
            &&& cs.len() == (s.len() + size - 1) / (size as int)
            &&& forall|k: int| 0 <= k < cs.len() ==> 1 <= (#[trigger] cs[k]).len() <= size
            &&& cs.flatten() == s
        }),
{
    let size = chunk_size_for(s.len(), cap);
    lemma_chunks_flatten(s, size);
    lemma_chunks_count(s, size);
    lemma_chunks_sizes(s, size);
}

} // verus!

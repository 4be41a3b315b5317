use vstd::prelude::*;
use crate::packet::{decode_frame, event_protocol, frame_event, PacketEvent};

verus! {

/// The count a tally sequence holds for a protocol; 0 when unseen.
pub open spec fn tally_of(s: Seq<(u8, usize)>, p: u8) -> nat
    decreases s.len(),
{
    if s.len() == 0 {
        0
    } else if s.first().0 == p {
        s.first().1 as nat
    } else {
        tally_of(s.drop_first(), p)
    }
}

/// A count after one more packet: it saturates rather than wrap.
pub open spec fn bumped(c: nat) -> nat {
    if c < usize::MAX {
        c + 1
    } else {
        c
    }
}

proof fn lemma_tally_at(s: Seq<(u8, usize)>, i: int, p: u8)
    requires
        0 <= i < s.len(),
        s[i].0 == p,
        forall|j: int| 0 <= j < i ==> s[j].0 != p,
    ensures
        tally_of(s, p) == s[i].1,
    decreases i,
{
    if i > 0 {
        lemma_tally_at(s.drop_first(), i - 1, p);
    }
}

proof fn lemma_tally_absent(s: Seq<(u8, usize)>, p: u8)
    requires
        forall|j: int| 0 <= j < s.len() ==> s[j].0 != p,
    ensures
        tally_of(s, p) == 0,
    decreases s.len(),
{
    if s.len() > 0 {
        lemma_tally_absent(s.drop_first(), p);
    }
}

proof fn lemma_tally_update(s: Seq<(u8, usize)>, i: int, p: u8, c: usize)
    requires
        0 <= i < s.len(),
        s[i].0 == p,
        forall|j: int| 0 <= j < i ==> s[j].0 != p,
    ensures
        tally_of(s.update(i, (p, c)), p) == c,
        forall|q: u8| q != p ==> tally_of(s.update(i, (p, c)), q) == tally_of(s, q),
    decreases i,
{
    let s2 = s.update(i, (p, c));
    if i == 0 {
        assert(s2.drop_first() =~= s.drop_first());
        assert(s2.first() == (p, c));
        assert forall|q: u8| q != p implies tally_of(s2, q) == tally_of(s, q) by {
            assert(tally_of(s2, q) == tally_of(s2.drop_first(), q));
            assert(tally_of(s, q) == tally_of(s.drop_first(), q));
        }
    } else {
        lemma_tally_update(s.drop_first(), i - 1, p, c);
        assert(s2.drop_first() =~= s.drop_first().update(i - 1, (p, c)));
        assert(s2.first() == s.first());
        assert forall|q: u8| q != p implies tally_of(s2, q) == tally_of(s, q) by {
            if s.first().0 == q {
                assert(tally_of(s2, q) == s2.first().1);
                assert(tally_of(s, q) == s.first().1);
            } else {
                assert(tally_of(s2, q) == tally_of(s2.drop_first(), q));
                assert(tally_of(s, q) == tally_of(s.drop_first(), q));
            }
        }
    }
}

proof fn lemma_tally_push(s: Seq<(u8, usize)>, p: u8, c: usize)
    requires
        forall|j: int| 0 <= j < s.len() ==> s[j].0 != p,
    ensures
        tally_of(s.push((p, c)), p) == c,
        forall|q: u8| q != p ==> tally_of(s.push((p, c)), q) == tally_of(s, q),
    decreases s.len(),
{
    let s2 = s.push((p, c));
    if s.len() == 0 {
        assert(s2.drop_first() =~= Seq::<(u8, usize)>::empty());
        assert(s2.first() == (p, c));
        assert forall|q: u8| q != p implies tally_of(s2, q) == tally_of(s, q) by {
            assert(tally_of(s2, q) == tally_of(s2.drop_first(), q));
            assert(tally_of(s2.drop_first(), q) == 0);
        }
    } else {
        lemma_tally_push(s.drop_first(), p, c);
        assert(s2.drop_first() =~= s.drop_first().push((p, c)));
        assert(s2.first() == s.first());
        assert forall|q: u8| q != p implies tally_of(s2, q) == tally_of(s, q) by {
            if s.first().0 == q {
                assert(tally_of(s2, q) == s2.first().1);
                assert(tally_of(s, q) == s.first().1);
            } else {
                assert(tally_of(s2, q) == tally_of(s2.drop_first(), q));
                assert(tally_of(s, q) == tally_of(s.drop_first(), q));
            }
        }
    }
}

/// Running per-protocol packet counts for one capture session, keyed by IP
/// protocol number, in first-seen order.
pub struct TrafficAnalyzer {
    pub stats: Vec<(u8, usize)>,
}

impl TrafficAnalyzer {
    /// No protocol appears twice in the tally.
    pub open spec fn wf(self) -> bool {
        forall|i: int, j: int| 0 <= i < j < self.stats@.len() ==> self.stats@[i].0 != self.stats@[j].0
    }

    /// An empty tally.
    pub fn new() -> (r: Self)
        ensures
            r.wf(),
            r.stats@.len() == 0,
            forall|p: u8| tally_of(r.stats@, p) == 0,
    {
        TrafficAnalyzer { stats: Vec::new() }
    }

    /// Count one packet of the given protocol; a protocol seen for the
    /// first time is registered at the end of the tally.
    pub fn record_protocol(&mut self, protocol: u8)
        requires
            old(self).wf(),
        ensures
            final(self).wf(),
            tally_of(final(self).stats@, protocol) == bumped(tally_of(old(self).stats@, protocol)),
            forall|q: u8|
                q != protocol ==> tally_of(final(self).stats@, q) == tally_of(old(self).stats@, q),
    {
        let n = self.stats.len();
        let mut i: usize = 0;
        while i < n
            invariant
                self.stats@ == old(self).stats@,
                old(self).wf(),
                n == self.stats@.len(),
                i <= n,
                forall|j: int| 0 <= j < i ==> self.stats@[j].0 != protocol,
            decreases n - i,
        {
            if self.stats[i].0 == protocol {
                let c = self.stats[i].1;
                let c2 = if c < usize::MAX {
                    c + 1
                } else {
                    c
                };
                proof {
                    lemma_tally_at(self.stats@, i as int, protocol);
                    lemma_tally_update(self.stats@, i as int, protocol, c2);
                }
                self.stats[i] = (protocol, c2);
                proof {
                    assert forall|a: int, b: int|
                        0 <= a < b < self.stats@.len() implies self.stats@[a].0 != self.stats@[b].0 by {
                        assert(self.stats@[a].0 == old(self).stats@[a].0);
                        assert(self.stats@[b].0 == old(self).stats@[b].0);
                    }
                }
                return ;
            }
            i = i + 1;
        }
        proof {
            lemma_tally_absent(self.stats@, protocol);
            lemma_tally_push(self.stats@, protocol, 1);
        }
        self.stats.push((protocol, 1));
        proof {
            assert forall|a: int, b: int|
                0 <= a < b < self.stats@.len() implies self.stats@[a].0 != self.stats@[b].0 by {
                if b < self.stats@.len() - 1 {
                } else {
                    assert(self.stats@[a].0 == old(self).stats@[a].0);
                    assert(self.stats@[b].0 == protocol);
                }
            }
        }
    }

    /// Decode one captured frame. An IPv4 frame is counted under its
    /// protocol number and summarized for the caller; any other frame
    /// leaves the tally alone.
    pub fn process_frame(&mut self, frame: &Vec<u8>) -> (r: Option<PacketEvent>)
        requires
            old(self).wf(),
        ensures
            final(self).wf(),
            r == frame_event(frame@),
            match frame_event(frame@) {
                Some(ev) => {
                    &&& tally_of(final(self).stats@, event_protocol(ev)) == bumped(
                        tally_of(old(self).stats@, event_protocol(ev)),
                    )
                    &&& forall|q: u8|
                        q != event_protocol(ev) ==> tally_of(final(self).stats@, q) == tally_of(
                            old(self).stats@,
                            q,
                        )
                },
                None => final(self).stats@ == old(self).stats@,
            },
    {
        let event = decode_frame(frame);
        match &event {
            Some(ev) => {
                let p: u8 = match ev {
                    PacketEvent::Tcp { .. } => 6,
                    PacketEvent::Udp { .. } => 17,
                    PacketEvent::Icmp { .. } => 1,
                    PacketEvent::Other { protocol, .. } => *protocol,
                };
                self.record_protocol(p);
            },
            None => {},
        }
        event
    }

    /// The tally's count for one protocol.
    pub fn packet_count(&self, protocol: u8) -> (n: usize)
        requires
            self.wf(),
        ensures
            n == tally_of(self.stats@, protocol),
    {
        let len = self.stats.len();
        let mut i: usize = 0;
        while i < len
            invariant
                len == self.stats@.len(),
                i <= len,
                forall|j: int| 0 <= j < i ==> self.stats@[j].0 != protocol,
            decreases len - i,
        {
            if self.stats[i].0 == protocol {
                proof {
                    lemma_tally_at(self.stats@, i as int, protocol);
                }
                return self.stats[i].1;
            }
            i = i + 1;
        }
        proof {
            lemma_tally_absent(self.stats@, protocol);
        }
        0
    }

    /// The whole tally, protocol numbers in first-seen order.
    pub fn stats(&self) -> (r: &Vec<(u8, usize)>)
        ensures
            r@ == self.stats@,
    {
        &self.stats
    }
}

} // verus!

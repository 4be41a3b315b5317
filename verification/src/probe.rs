use vstd::prelude::*;

verus! {

/// The ports the liveness probe tries, in order: 80 first, then the
/// fallbacks 22, 135, 443 and 3389.
pub open spec fn liveness_ports_spec() -> Seq<u16> {
    seq![80u16, 22u16, 135u16, 443u16, 3389u16]
}

pub fn liveness_ports() -> (r: Vec<u16>)
    ensures
        r@ == liveness_ports_spec(),
{
    let mut v: Vec<u16> = Vec::new();
    v.push(80);
    v.push(22);
    v.push(135);
    v.push(443);
    v.push(3389);
    proof {
        assert(v@ =~= liveness_ports_spec());
    }
    v
}

/// Whether any probed port accepted the connection.
pub open spec fn probe_alive(outcomes: Seq<bool>) -> bool {
    exists|k: int| 0 <= k < outcomes.len() && outcomes[k]
}

/// How many connect attempts the sequential prober makes against these
/// outcomes: it stops at the first success, otherwise tries every port.
pub open spec fn probe_attempts(outcomes: Seq<bool>) -> nat
    decreases outcomes.len(),
{
    if outcomes.len() == 0 {
        0
    } else if outcomes.first() {
        1
    } else {
        1 + probe_attempts(outcomes.drop_first())
    }
}

proof fn lemma_probe_attempts_at(outcomes: Seq<bool>, k: int)
    requires
        0 <= k <= outcomes.len(),
        forall|i: int| 0 <= i < k ==> !outcomes[i],
        k < outcomes.len() ==> outcomes[k],
    ensures
        probe_attempts(outcomes) == if k < outcomes.len() {
            k + 1
        } else {
            k
        },
    decreases k,
{
    if k == 0 {
    } else {
        assert(!outcomes.first());
        lemma_probe_attempts_at(outcomes.drop_first(), k - 1);
    }
}

/// Decide liveness from the connect outcomes of the probe ports, reporting
/// whether the host answered and how many attempts the sequential prober
/// makes before stopping.
pub fn evaluate_probe(outcomes: &Vec<bool>) -> (r: (bool, usize))
    ensures
        r.0 == probe_alive(outcomes@),
        r.1 == probe_attempts(outcomes@),
{
    let n = outcomes.len();
    let mut k: usize = 0;
    while k < n
        invariant
            n == outcomes@.len(),
            k <= n,
            forall|i: int| 0 <= i < k ==> !outcomes@[i],
        decreases n - k,
    {
        if outcomes[k] {
            proof {
                lemma_probe_attempts_at(outcomes@, k as int);
            }
            return (true, k + 1);
        }
        k = k + 1;
    }
    proof {
        lemma_probe_attempts_at(outcomes@, n as int);
    }
    (false, n)
}

/// Against a host with every probe port closed, the prober reports the
/// host dead, and only after attempting all five ports.
pub proof fn lemma_dead_host_fully_probed(outcomes: Seq<bool>)
    requires
        outcomes.len() == liveness_ports_spec().len(),
        forall|k: int| 0 <= k < outcomes.len() ==> !outcomes[k],
    ensures
        !probe_alive(outcomes),
        probe_attempts(outcomes) == liveness_ports_spec().len(),
{
    lemma_probe_attempts_at(outcomes, outcomes.len() as int);
}

/// The incremental prober that an I/O driver steps, one connect attempt at
/// a time: it hands out the next port to try and stops at the first
/// success or once every port has been attempted.
pub struct LivenessProbe {
    pub attempted: usize,
    pub alive: bool,
}

impl LivenessProbe {
    pub open spec fn wf(self) -> bool {
        self.attempted <= liveness_ports_spec().len()
    }

    pub fn new() -> (r: Self)
        ensures
            r.attempted == 0,
            !r.alive,
            r.wf(),
    {
        LivenessProbe { attempted: 0, alive: false }
    }

    /// The port the driver should try next; None once the probe concluded.
    pub fn next_port(&self) -> (r: Option<u16>)
        requires
            self.wf(),
        ensures
            r is Some <==> (!self.alive && self.attempted < liveness_ports_spec().len()),
            r is Some ==> r->0 == liveness_ports_spec()[self.attempted as int],
    {
        if self.alive || self.attempted >= 5 {
            None
        } else {
            let ports = liveness_ports();
            Some(ports[self.attempted])
        }
    }

    /// Record the outcome of the connect attempt on the pending port.
    pub fn record(&mut self, success: bool)
        requires
            old(self).wf(),
            !old(self).alive,
            old(self).attempted < liveness_ports_spec().len(),
        ensures
            final(self).attempted == old(self).attempted + 1,
            final(self).alive == success,
            final(self).wf(),
    {
        self.attempted = self.attempted + 1;
        self.alive = success;
    }

    pub fn is_alive(&self) -> (r: bool)
        ensures
            r == self.alive,
    {
        self.alive
    }
}

} // verus!

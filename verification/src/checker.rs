//! Active health checking policy: what a probe's outcome means for the
//! registry. A sweep probes every upstream index in order; exactly a status
//! of 200 marks an index healthy, any other status and any connect, read or
//! parse failure marks it unhealthy, and one failed probe never aborts the
//! sweep for the remaining indices.

use vstd::prelude::*;

use crate::health::HealthRegistry;

verus! {

/// What one probe of one upstream produced: a parsed response status, or a
/// connect/read/parse failure.
pub enum ProbeOutcome {
    Status(u16),
    Unreachable,
}

/// The probe policy: only a response with status 200 counts as healthy.
pub open spec fn probe_healthy(o: ProbeOutcome) -> bool {
    match o {
        ProbeOutcome::Status(s) => s == 200,
        ProbeOutcome::Unreachable => false,
    }
}

/// Decide what a probe outcome means under the probe policy.
pub fn evaluate_probe(outcome: &ProbeOutcome) -> (r: bool)
    ensures
        r == probe_healthy(*outcome),
{
    match outcome {
        ProbeOutcome::Status(s) => *s == 200,
        ProbeOutcome::Unreachable => false,
    }
}

/// Record one probe's outcome: the entry for the probed index is
/// overwritten according to the probe policy, and no other entry changes.
pub fn record_probe(reg: &mut HealthRegistry, i: usize, outcome: &ProbeOutcome)
    requires
        i < old(reg)@.len(),
    ensures
        final(reg)@ == old(reg)@.update(i as int, probe_healthy(*outcome)),
{
    if evaluate_probe(outcome) {
        reg.mark_healthy(i);
    } else {
        reg.mark_unhealthy(i);
    }
}

/// Record a whole sweep, one outcome per upstream index in order: afterwards
/// every index is healthy exactly as its own probe said, whatever the
/// registry held before — so an index marked unhealthy by a connect failure
/// is healthy again as soon as a sweep observes status 200 for it.
pub fn record_sweep(reg: &mut HealthRegistry, outcomes: &Vec<ProbeOutcome>)
    requires
        outcomes@.len() == old(reg)@.len(),
    ensures
        final(reg)@.len() == old(reg)@.len(),
        forall|i: int|
            0 <= i < final(reg)@.len() ==> final(reg)@[i] == probe_healthy(outcomes@[i]),
{
    let n = outcomes.len();
    let mut i: usize = 0;
    while i < n
        invariant
            i <= n,
            n == outcomes@.len(),
            reg@.len() == old(reg)@.len(),
            n == reg@.len(),
            forall|k: int| 0 <= k < i ==> reg@[k] == probe_healthy(outcomes@[k]),
        decreases n - i,
    {
        record_probe(reg, i, &outcomes[i]);
        i = i + 1;
    }
}

/// Law: a probe that observes status 200 for an index makes that index
/// healthy even if it was previously marked unhealthy, for instance by a
/// connect failure.
pub proof fn lemma_probe_overrides_failure(s: Seq<bool>, i: int)
    requires
        0 <= i < s.len(),
    ensures
        s.update(i, probe_healthy(ProbeOutcome::Status(200)))[i],
{
}

} // verus!

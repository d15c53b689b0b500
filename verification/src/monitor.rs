use vstd::prelude::*;

verus! {

use crate::health::{HealthStatus, health_of_probe};
use crate::instance::InstanceView;
use crate::registry::Registry;

// The health monitor runs on a fixed period: it snapshots the
// instances, probes each address with a bounded timeout, and writes
// each outcome back. The probing itself is an adapter's work; what an
// outcome does to the store is decided and proved here.

/// The instance table after folding in probe outcomes, oldest first:
/// each outcome sets the health of its instance to `Healthy` on
/// success and `Unhealthy` otherwise, and is dropped silently when the
/// instance is gone.
pub open spec fn apply_outcomes(
    m: Map<u128, InstanceView>,
    outcomes: Seq<(u128, bool)>,
) -> Map<u128, InstanceView>
    decreases outcomes.len(),
{
    if outcomes.len() == 0 {
        m
    } else {
        let m1 = apply_outcomes(m, outcomes.drop_last());
        let id = outcomes.last().0;
        let ok = outcomes.last().1;
        if m1.contains_key(id) {
            m1.insert(id, InstanceView { health: health_of_probe(ok), ..m1[id] })
        } else {
            m1
        }
    }
}

/// One monitor cycle drives a registered instance's health entirely
/// by its probe outcome, whatever it was before: reachable means
/// `Healthy`, unreachable means `Unhealthy`, and no probe ever yields
/// `Unknown`. Instances the cycle did not probe keep their entry.
pub proof fn lemma_cycle_health_transition(
    m: Map<u128, InstanceView>,
    id: u128,
    success: bool,
)
    requires
        m.contains_key(id),
    ensures
        apply_outcomes(m, seq![(id, success)]).contains_key(id),
        apply_outcomes(m, seq![(id, success)])[id].health == health_of_probe(success),
        health_of_probe(success) != HealthStatus::Unknown,
        forall|k: u128|
            k != id ==> (#[trigger] apply_outcomes(m, seq![(id, success)]).contains_key(k)
                <==> m.contains_key(k)),
        forall|k: u128|
            k != id && m.contains_key(k) ==> #[trigger] apply_outcomes(
                m,
                seq![(id, success)],
            )[k] == m[k],
{
    let s = seq![(id, success)];
    assert(s.drop_last() =~= Seq::<(u128, bool)>::empty());
    assert(s.last() == (id, success));
    assert(apply_outcomes(m, s.drop_last()) == m);
}

/// Writes one probe outcome back: success means `Healthy`, failure
/// `Unhealthy`. A missing instance (deleted mid-cycle) is swallowed;
/// one failed write-back must not abort the rest of a cycle.
pub fn record_probe(registry: &mut Registry, id: u128, success: bool)
    requires
        old(registry).wf(),
    ensures
        final(registry).wf(),
        final(registry).services_map() == old(registry).services_map(),
        final(registry).identities_map() == old(registry).identities_map(),
        old(registry).instances_map().contains_key(id) ==> final(registry).instances_map() == old(
            registry,
        ).instances_map().insert(
            id,
            InstanceView {
                health: health_of_probe(success),
                ..old(registry).instances_map()[id]
            },
        ),
        !old(registry).instances_map().contains_key(id) ==> final(registry).instances_map() == old(
            registry,
        ).instances_map(),
{
    let status = if success {
        HealthStatus::Healthy
    } else {
        HealthStatus::Unhealthy
    };
    match registry.update_instance_health(id, status) {
        Ok(()) => (),
        Err(_) => (),
    }
}

/// One monitor cycle over an already-probed snapshot: folds every
/// probe outcome into the instance table, in order, each write-back
/// independent of the others.
pub fn monitor_cycle(registry: &mut Registry, outcomes: &Vec<(u128, bool)>)
    requires
        old(registry).wf(),
    ensures
        final(registry).wf(),
        final(registry).services_map() == old(registry).services_map(),
        final(registry).identities_map() == old(registry).identities_map(),
        final(registry).instances_map() == apply_outcomes(
            old(registry).instances_map(),
            outcomes@,
        ),
{
    let mut i: usize = 0;
    while i < outcomes.len()
        invariant
            registry.wf(),
            0 <= i <= outcomes@.len(),
            registry.services_map() == old(registry).services_map(),
            registry.identities_map() == old(registry).identities_map(),
            registry.instances_map() == apply_outcomes(
                old(registry).instances_map(),
                outcomes@.take(i as int),
            ),
        decreases outcomes@.len() - i,
    {
        let (id, ok) = outcomes[i];
        record_probe(registry, id, ok);
        proof {
            let t1 = outcomes@.take(i as int + 1);
            assert(t1.drop_last() =~= outcomes@.take(i as int));
            assert(t1.last() == outcomes@[i as int]);
        }
        i = i + 1;
    }
    proof {
        assert(outcomes@.take(outcomes@.len() as int) =~= outcomes@);
    }
}

} // verus!

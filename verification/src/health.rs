use vstd::prelude::*;

verus! {

/// Reachability state of a service instance.
///
/// A fresh instance starts at `Unknown`; a monitor probe moves it to
/// `Healthy` or `Unhealthy`, and an explicit health update may set any
/// value. `Unknown` is never re-derived after registration.
#[derive(Debug, Clone, Copy, PartialEq, Eq, Structural)]
pub enum HealthStatus {
    Healthy,
    Unhealthy,
    Unknown,
}

/// The health that one probe outcome assigns: success means `Healthy`,
/// any failure or timeout means `Unhealthy`. A probe never yields
/// `Unknown`.
pub open spec fn health_of_probe(success: bool) -> HealthStatus {
    if success {
        HealthStatus::Healthy
    } else {
        HealthStatus::Unhealthy
    }
}

/// The health a probe outcome maps to, for adapters that write it
/// back to their own store.
pub fn probe_health(success: bool) -> (h: HealthStatus)
    ensures
        h == health_of_probe(success),
{
    if success {
        HealthStatus::Healthy
    } else {
        HealthStatus::Unhealthy
    }
}

} // verus!

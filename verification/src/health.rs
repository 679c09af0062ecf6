//! Health classification of a tunnel from a reachability probe, and the rule
//! for when a change of classification is worth a notification.

use vstd::prelude::*;

verus! {

/// Health of a tunnel's public hostname as last probed. Transient: never
/// persisted.
#[derive(Debug, Clone, Copy, PartialEq, Eq, Structural)]
pub enum HealthStatus {
    Unknown,
    Healthy,
    Unhealthy,
    Checking,
}

impl Default for HealthStatus {
    fn default() -> (r: Self)
        ensures
            r is Unknown,
    {
        HealthStatus::Unknown
    }
}

/// The classification a probe outcome receives: any response at all, even an
/// error page, shows the tunnel reachable, except a server error; no response
/// shows it unreachable.
pub open spec fn spec_classify_probe(code: Option<u16>) -> HealthStatus {
    match code {
        Some(c) => if 500 <= c < 600 {
            HealthStatus::Unhealthy
        } else {
            HealthStatus::Healthy
        },
        None => HealthStatus::Unhealthy,
    }
}

/// Classifies the outcome of a reachability probe against the tunnel's public
/// hostname: `code` is the response status, or `None` when the transport
/// failed.
pub fn classify_probe(code: Option<u16>) -> (r: HealthStatus)
    ensures
        r == spec_classify_probe(code),
{
    match code {
        Some(c) => if 500 <= c && c < 600 {
            HealthStatus::Unhealthy
        } else {
            HealthStatus::Healthy
        },
        None => HealthStatus::Unhealthy,
    }
}

/// Only the two meaningful edges notify: a tunnel going down, or coming back
/// up. Repeating the same classification never does.
pub fn should_notify(prev: HealthStatus, next: HealthStatus) -> (b: bool)
    ensures
        b == ((prev is Healthy && next is Unhealthy) || (prev is Unhealthy && next is Healthy)),
{
    match (prev, next) {
        (HealthStatus::Healthy, HealthStatus::Unhealthy) => true,
        (HealthStatus::Unhealthy, HealthStatus::Healthy) => true,
        _ => false,
    }
}

} // verus!

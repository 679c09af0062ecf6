//! Runtime status of a tunnel as observed from the host service manager.

use vstd::prelude::*;

verus! {

/// The runtime status of a tunnel, observed on each reconciliation pass and
/// never persisted.
#[derive(Debug, Clone, Copy, PartialEq, Eq, Structural)]
pub enum TunnelStatus {
    Running,
    Stopped,
    Error,
}

impl TunnelStatus {
    /// One-character marker used when listing tunnels.
    pub fn symbol(&self) -> (r: &'static str)
        ensures
            *self is Running ==> r@ == "\u{25cf}"@,
            *self is Stopped ==> r@ == "\u{25cb}"@,
            *self is Error ==> r@ == "\u{2717}"@,
    {
        match self {
            TunnelStatus::Running => "\u{25cf}",
            TunnelStatus::Stopped => "\u{25cb}",
            TunnelStatus::Error => "\u{2717}",
        }
    }
}

} // verus!

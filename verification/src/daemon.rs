//! Cluster daemon configuration.

use vstd::prelude::*;

verus! {

/// Configuration knobs of the cluster daemon.
#[derive(Debug, Clone, Copy)]
pub struct DaemonConfig {
    /// How often the daemon ticks (gossip and leader actions), in
    /// milliseconds.
    pub gossip_interval: u64,
}

impl Default for DaemonConfig {
    fn default() -> (c: Self)
        ensures
            c.gossip_interval == 1000,
    {
        DaemonConfig { gossip_interval: 1000 }
    }
}

/// Marker strategy used when no split-brain resolver is installed: it
/// never downs anyone.
pub struct NoSbr;

} // verus!

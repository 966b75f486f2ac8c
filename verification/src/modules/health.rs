//! The connection counts reported by the health check.
use vstd::prelude::*;

verus! {

pub struct HealthService;

impl HealthService {
    /// Connections in use: those open minus the idle ones (the pool never
    /// counts more idle connections than open ones).
    pub fn active_connections(total: u32, idle: u32) -> (r: u32)
        requires
            idle <= total,
        ensures
            r == total - idle,
    {
        total - idle
    }
}

} // verus!

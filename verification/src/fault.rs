//! Faults active on a scenario's timeline.

use vstd::prelude::*;

verus! {

/// A fault that has been activated on the scenario timeline.
///
/// `target` matches the scenario fault target (`mqtt.cloud`,
/// `wan.primary`, `edge.primary`, ...) and `fault_type` the declared type
/// (`offline`, `power_lost`, ...). Instants are milliseconds since the
/// Unix epoch, so that two instants compare as the moments they name,
/// whatever offset they were written with. `ends_at` is `None` for a
/// fault that lasts for the rest of the scenario.
#[derive(Debug)]
pub struct ActiveFault {
    pub target: String,
    pub fault_type: String,
    pub starts_at: i64,
    pub ends_at: Option<i64>,
}

impl ActiveFault {
    /// Whether the fault is active at `at`: from its start on, up to and
    /// including its end when it has one.
    pub fn is_active_at(&self, at: i64) -> (b: bool)
        ensures
            b == (at >= self.starts_at && match self.ends_at {
                Some(end) => at <= end,
                None => true,
            }),
    {
        at >= self.starts_at && match self.ends_at {
            Some(end) => at <= end,
            None => true,
        }
    }
}

} // verus!

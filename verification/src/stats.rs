//! Usage statistics a domain reports on request.

use vstd::prelude::*;

verus! {

/// Counters for a whole domain.
#[derive(Clone, Copy, PartialEq, Eq, Structural)]
pub struct DomainStats {
    pub total_packets_processed: u64,
    pub total_ptime_ns: u64,
    pub wait_time_ns: u64,
}

/// Counters for one node of the domain.
#[derive(Clone, Copy, PartialEq, Eq, Structural)]
pub struct NodeStats {
    pub rows_materialized: u64,
    pub bytes: u64,
}

/// A counter bump that can never overflow: the counter pins at its maximum.
pub fn saturating_inc(x: u64) -> (r: u64)
    ensures
        r == (if x < u64::MAX { x + 1 } else { x as int }),
{
    if x < u64::MAX {
        x + 1
    } else {
        x
    }
}

} // verus!

//! What the registry reports of leases.
use vstd::prelude::*;

use crate::lease::Lease;

verus! {

/// What happened to a key.
#[derive(Debug, Clone, Copy, PartialEq, Eq, Structural)]
pub enum EventType {
    Put,
    Delete,
}

/// What happened to a lease.
#[derive(Debug, PartialEq, Eq)]
pub struct LeaseWatchEvent {
    pub lease: Lease,
    pub event_type: EventType,
}

/// All leases at a revision, or what happened to some since.
#[derive(Debug, PartialEq, Eq)]
pub struct LeaseWatchResult {
    pub snapshot: Vec<Lease>,
    pub events: Vec<LeaseWatchEvent>,
    pub cursor: i64,
}

impl Default for LeaseWatchResult {
    fn default() -> (r: Self)
        ensures
            r.snapshot@ == Seq::<Lease>::empty(),
            r.events@ == Seq::<LeaseWatchEvent>::empty(),
            r.cursor == 0,
    {
        LeaseWatchResult { snapshot: Vec::new(), events: Vec::new(), cursor: 0 }
    }
}

/// A lease was written.
pub open spec fn put(lease: Lease) -> LeaseWatchEvent {
    LeaseWatchEvent { lease, event_type: EventType::Put }
}

/// A lease was removed.
pub open spec fn delete(lease: Lease) -> LeaseWatchEvent {
    LeaseWatchEvent { lease, event_type: EventType::Delete }
}

/// An event tells what happened, and of which lease with all that it holds.
pub proof fn events_carry_the_lease(lease: Lease)
    ensures
        put(lease).event_type == EventType::Put && put(lease).lease == lease,
        delete(lease).event_type == EventType::Delete && delete(lease).lease == lease,
{
}

}

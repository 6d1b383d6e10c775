//! Shard routing: the dispatcher's decisions.
//!
//! The dispatcher feeds each event to one of a bounded set of lanes so
//! that all events of a client land on the same lane in arrival order.
//! The decision logic lives here, verified; the mailboxes and lane
//! processors around it are adapter plumbing.

use vstd::prelude::*;

verus! {

/// Shard selection: a client is pinned to `client_id mod worker_count`,
/// a pure function of the client id — which is what keeps one client's
/// events on one lane.
pub open spec fn spec_shard(client_id: u16, worker_count: u16) -> int {
    client_id as int % worker_count as int
}

/// The lane table of a dispatcher: which shard indices already have a
/// running lane. Creation is lazy and append-only for the run's duration.
pub struct Router {
    worker_count: u16,
    active: Vec<bool>,
}

impl Router {
    pub closed spec fn spec_worker_count(self) -> u16 {
        self.worker_count
    }

    pub closed spec fn spec_active(self) -> Seq<bool> {
        self.active@
    }

    pub open spec fn wf(self) -> bool {
        &&& self.spec_active().len() == self.spec_worker_count()
        &&& self.spec_worker_count() >= 1
    }

    /// A router over `worker_count` lanes (at least one), none active yet.
    pub fn new(worker_count: u16) -> (r: Router)
        requires
            worker_count >= 1,
        ensures
            r.wf(),
            r.spec_worker_count() == worker_count,
            forall|k: int| 0 <= k < worker_count ==> !r.spec_active()[k],
    {
        let mut active: Vec<bool> = Vec::new();
        for i in 0..worker_count
            invariant
                active@.len() == i,
                forall|k: int| 0 <= k < active@.len() ==> !active@[k],
        {
            active.push(false);
        }
        Router { worker_count, active }
    }

    /// The lane an event for `client_id` goes to.
    pub fn shard_of(&self, client_id: u16) -> (shard: u16)
        requires
            self.wf(),
        ensures
            shard as int == spec_shard(client_id, self.spec_worker_count()),
            shard < self.spec_worker_count(),
    {
        client_id % self.worker_count
    }

    /// Route one event: the shard index, and whether this is the shard's
    /// first event, so that the caller must spawn its lane before
    /// enqueueing. The shard is recorded as active either way.
    pub fn route(&mut self, client_id: u16) -> (d: (u16, bool))
        requires
            old(self).wf(),
        ensures
            final(self).wf(),
            final(self).spec_worker_count() == old(self).spec_worker_count(),
            d.0 as int == spec_shard(client_id, old(self).spec_worker_count()),
            d.0 < old(self).spec_worker_count(),
            d.1 == !old(self).spec_active()[d.0 as int],
            final(self).spec_active() == old(self).spec_active().update(d.0 as int, true),
    {
        let shard = client_id % self.worker_count;
        let spawn = !self.active[shard as usize];
        self.active.set(shard as usize, true);
        (shard, spawn)
    }
}

} // verus!

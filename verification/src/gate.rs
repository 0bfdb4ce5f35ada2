//! The admission gate: a counting semaphore bounding how many part
//! uploads may be in flight at once.
//!
//! This is the engine's model of the permit pool shared by the dispatched
//! part-upload tasks. A driver acquires one permit for the whole duration
//! of one part upload and must release it on every exit path.

use vstd::prelude::*;

verus! {

/// A pool of `max_permits` permits, of which `in_flight` are currently
/// held by running part uploads.
pub struct AdmissionGate {
    max_permits: usize,
    in_flight: usize,
}

impl AdmissionGate {
    /// How many permits this pool was created with.
    pub closed spec fn max_permits(self) -> int {
        self.max_permits as int
    }

    /// How many part uploads currently hold a permit.
    pub closed spec fn in_flight(self) -> int {
        self.in_flight as int
    }

    /// Never hands out more permits than it was created with.
    pub closed spec fn wf(self) -> bool {
        self.in_flight <= self.max_permits && self.max_permits >= 1
    }

    /// The concurrency bound itself: as long as the pool is well formed,
    /// no more than `max_permits` part uploads hold a permit at any point.
    pub proof fn lemma_bounds_in_flight(self)
        requires
            self.wf(),
        ensures
            self.in_flight() <= self.max_permits(),
    {
    }

    pub fn new(max_permits: usize) -> (g: AdmissionGate)
        requires
            max_permits >= 1,
        ensures
            g.wf(),
            g.max_permits() == max_permits,
            g.in_flight() == 0,
    {
        AdmissionGate { max_permits, in_flight: 0 }
    }

    /// Acquires a permit when one is free; otherwise leaves the pool
    /// unchanged and reports that the caller must wait.
    pub fn try_acquire(&mut self) -> (ok: bool)
        requires
            old(self).wf(),
        ensures
            final(self).wf(),
            final(self).max_permits() == old(self).max_permits(),
            ok <==> old(self).in_flight() < old(self).max_permits(),
            ok ==> final(self).in_flight() == old(self).in_flight() + 1,
            !ok ==> final(self).in_flight() == old(self).in_flight(),
    {
        if self.in_flight < self.max_permits {
            self.in_flight = self.in_flight + 1;
            true
        } else {
            false
        }
    }

    /// Acquires a permit; the caller must know one is free (a blocked
    /// acquisition is the driver's concern, not the engine's).
    pub fn acquire(&mut self)
        requires
            old(self).wf(),
            old(self).in_flight() < old(self).max_permits(),
        ensures
            final(self).wf(),
            final(self).max_permits() == old(self).max_permits(),
            final(self).in_flight() == old(self).in_flight() + 1,
    {
        self.in_flight = self.in_flight + 1;
    }

    /// Releases a held permit. Must be called exactly once per acquired
    /// permit, on every exit path of a part upload.
    pub fn release(&mut self)
        requires
            old(self).wf(),
            old(self).in_flight() >= 1,
        ensures
            final(self).wf(),
            final(self).max_permits() == old(self).max_permits(),
            final(self).in_flight() == old(self).in_flight() - 1,
    {
        self.in_flight = self.in_flight - 1;
    }
}

} // verus!

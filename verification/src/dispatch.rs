//! The listener's admission policy: a counting semaphore sized to the
//! connection cap. The count of live connections never exceeds the capacity;
//! an arrival beyond the cap is not admitted until a slot frees.

use vstd::prelude::*;

verus! {

/// The admission state: how many permits exist and how many are out.
pub struct AdmissionControl {
    capacity: usize,
    in_flight: usize,
}

impl AdmissionControl {
    /// The cap that was configured.
    pub closed spec fn spec_capacity(self) -> usize {
        self.capacity
    }

    /// How many connections hold a permit now.
    pub closed spec fn spec_in_flight(self) -> usize {
        self.in_flight
    }

    /// The admission invariant: live connections never exceed the cap.
    pub closed spec fn wf(self) -> bool {
        self.in_flight <= self.capacity
    }

    pub fn new(capacity: usize) -> (r: Self)
        requires
            capacity >= 1,
        ensures
            r.wf(),
            r.spec_capacity() == capacity,
            r.spec_in_flight() == 0,
    {
        AdmissionControl { capacity, in_flight: 0 }
    }

    pub fn capacity(&self) -> (r: usize)
        ensures
            r == self.spec_capacity(),
    {
        self.capacity
    }

    pub fn in_flight(&self) -> (r: usize)
        ensures
            r == self.spec_in_flight(),
    {
        self.in_flight
    }

    /// Admits a connection exactly when a permit is free; a refused arrival
    /// changes nothing and must wait.
    pub fn try_acquire(&mut self) -> (granted: bool)
        requires
            old(self).wf(),
        ensures
            final(self).wf(),
            final(self).spec_capacity() == old(self).spec_capacity(),
            granted == (old(self).spec_in_flight() < old(self).spec_capacity()),
            granted ==> final(self).spec_in_flight() == old(self).spec_in_flight() + 1,
            !granted ==> final(self).spec_in_flight() == old(self).spec_in_flight(),
    {
        if self.in_flight < self.capacity {
            self.in_flight = self.in_flight + 1;
            true
        } else {
            false
        }
    }

    /// Returns a permit when a connection record is destroyed.
    pub fn release(&mut self)
        requires
            old(self).wf(),
            old(self).spec_in_flight() > 0,
        ensures
            final(self).wf(),
            final(self).spec_capacity() == old(self).spec_capacity(),
            final(self).spec_in_flight() == old(self).spec_in_flight() - 1,
    {
        self.in_flight = self.in_flight - 1;
    }
}

/// The admission bound: in every reachable admission state the number of
/// in-flight connections is at most the configured cap, however many
/// arrivals contend.
pub proof fn lemma_admission_bound(a: AdmissionControl)
    requires
        a.wf(),
    ensures
        a.spec_in_flight() <= a.spec_capacity(),
{
}

} // verus!

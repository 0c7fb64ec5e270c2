//! The identity allocator: one process-unique identity per subscription.

use vstd::prelude::*;

verus! {

/// Issues subscriber identities. Identities start at one and only grow, so a
/// value handed out once is never handed out again in the life of the
/// allocator.
pub struct IdAllocator {
    next: u64,
}

impl IdAllocator {
    /// The identity the next subscription will get; everything issued so far
    /// is strictly smaller.
    pub closed spec fn spec_next(&self) -> u64 {
        self.next
    }

    /// Identities are positive.
    pub open spec fn wf(&self) -> bool {
        self.spec_next() >= 1
    }

    pub fn new() -> (a: Self)
        ensures
            a.wf(),
            a.spec_next() == 1,
    {
        IdAllocator { next: 1 }
    }

    /// The identity the next subscription will get, without issuing it.
    pub fn next_value(&self) -> (n: u64)
        ensures
            n == self.spec_next(),
    {
        self.next
    }

    /// Issues a fresh identity: the current counter value, which no earlier
    /// call has returned and no later call will return again.
    pub fn next_id(&mut self) -> (id: u64)
        requires
            old(self).wf(),
            old(self).spec_next() < u64::MAX,
        ensures
            final(self).wf(),
            id == old(self).spec_next(),
            final(self).spec_next() == old(self).spec_next() + 1,
            id >= 1,
    {
        let id = self.next;
        self.next = self.next + 1;
        id
    }
}

} // verus!

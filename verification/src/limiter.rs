//! The concurrency limiter: a bounded admission gate that keeps the number
//! of simultaneously running executors — and with them, provisioned
//! sandboxes — at or below a configured capacity.

use vstd::prelude::*;

verus! {

/// A slot counter with a fixed capacity. The coordinator acquires one slot
/// per executor it spawns and releases it on the executor's terminal
/// transition, so `in_use` tracks the live executors exactly.
pub struct Limiter {
    /// The configured bound on concurrent executors.
    pub capacity: usize,
    /// How many slots are currently held.
    pub in_use: usize,
}

impl Limiter {
    /// The limiter never hands out more slots than its capacity.
    pub open spec fn wf(self) -> bool {
        self.in_use <= self.capacity
    }

    /// A fresh limiter with all slots free.
    pub fn new(capacity: usize) -> (r: Limiter)
        ensures
            r.wf(),
            r.capacity == capacity,
            r.in_use == 0,
    {
        Limiter { capacity, in_use: 0 }
    }

    /// How many more executors may be admitted right now.
    pub fn available_slots(&self) -> (r: usize)
        requires
            self.wf(),
        ensures
            r == self.capacity - self.in_use,
    {
        self.capacity - self.in_use
    }

    /// Takes one slot if any is free; reports whether admission succeeded.
    /// Admission succeeds exactly when a slot is free, so no more than
    /// `capacity` slots are ever held at once.
    pub fn try_acquire(&mut self) -> (r: bool)
        requires
            old(self).wf(),
        ensures
            final(self).wf(),
            final(self).capacity == old(self).capacity,
            r == (old(self).in_use < old(self).capacity),
            r ==> final(self).in_use == old(self).in_use + 1,
            !r ==> final(self).in_use == old(self).in_use,
    {
        if self.in_use < self.capacity {
            self.in_use = self.in_use + 1;
            true
        } else {
            false
        }
    }

    /// Returns one held slot.
    pub fn release(&mut self)
        requires
            old(self).wf(),
            old(self).in_use > 0,
        ensures
            final(self).wf(),
            final(self).capacity == old(self).capacity,
            final(self).in_use == old(self).in_use - 1,
    {
        self.in_use = self.in_use - 1;
    }
}

} // verus!

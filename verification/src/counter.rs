//! The part-number counter: a monotonically increasing counter, starting
//! at 1, shared by all part-upload tasks of one multipart session.
//!
//! This is the engine's model of the atomically incremented counter: each
//! task fetches the next number exactly once, at the moment it begins
//! executing, so every dispatched part receives a unique, increasing
//! number no matter how tasks interleave.

use vstd::prelude::*;

verus! {

/// Hands out part numbers 1, 2, 3, ... in order.
pub struct PartCounter {
    next_part_number: usize,
}

impl PartCounter {
    /// The number the next fetch will return.
    pub closed spec fn next(self) -> int {
        self.next_part_number as int
    }

    /// Part numbers start at 1.
    pub fn new() -> (c: PartCounter)
        ensures
            c.next() == 1,
    {
        PartCounter { next_part_number: 1 }
    }

    /// Returns the current number and advances the counter, as one atomic
    /// fetch-and-add does.
    pub fn fetch_next(&mut self) -> (n: usize)
        requires
            old(self).next() < usize::MAX,
        ensures
            n == old(self).next(),
            final(self).next() == old(self).next() + 1,
    {
        let n = self.next_part_number;
        self.next_part_number = self.next_part_number + 1;
        n
    }
}

} // verus!

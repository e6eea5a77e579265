//! A counter of occurrences.

use vstd::prelude::*;

verus! {

/// An unsigned count.
#[derive(Clone, Copy, Debug, Default, PartialEq, Eq, Structural)]
pub struct Counter(pub usize);

impl Counter {
    pub fn new(counter: usize) -> (r: Self)
        ensures
            r.0 == counter,
    {
        Counter(counter)
    }

    pub fn inner_ref(&self) -> (n: &usize)
        ensures
            *n == self.0,
    {
        &self.0
    }

    /// The count.
    pub fn value(&self) -> (n: usize)
        ensures
            n == self.0,
    {
        self.0
    }

    pub fn increment(&mut self)
        requires
            old(self).0 < usize::MAX,
        ensures
            final(self).0 == old(self).0 + 1,
    {
        self.0 += 1;
    }

    pub fn decrement(&mut self)
        requires
            old(self).0 > 0,
        ensures
            final(self).0 == old(self).0 - 1,
    {
        self.0 -= 1;
    }
}

} // verus!

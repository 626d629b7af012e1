//! A counter that counts up from zero.

use vstd::prelude::*;

verus! {

/// A counter holding how many times it has been incremented.
#[derive(Clone, Copy, Debug, PartialEq, Eq, Structural)]
pub struct Counter {
    pub count: i32,
}

impl Counter {
    /// A fresh counter standing at zero.
    pub fn new() -> (c: Counter)
        ensures
            c.count == 0,
    {
        Counter { count: 0 }
    }

    /// Counts one step up.
    pub fn increment(&mut self)
        requires
            old(self).count < i32::MAX,
        ensures
            final(self).count == old(self).count + 1,
    {
        self.count = self.count + 1;
    }

    /// The current count.
    pub fn get(&self) -> (n: i32)
        ensures
            n == self.count,
    {
        self.count
    }
}

} // verus!

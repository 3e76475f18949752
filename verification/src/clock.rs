//! The logical clock that stands for "now".

use vstd::prelude::*;

verus! {

/// A counter that is read as the current time and moves only when told to.
pub struct LogicalClock {
    now: u64,
}

impl LogicalClock {
    /// The current value of the clock.
    pub closed spec fn view(&self) -> nat {
        self.now as nat
    }

    /// A clock that stands at zero.
    pub fn new() -> (clock: Self)
        ensures
            clock@ == 0,
    {
        LogicalClock { now: 0 }
    }

    /// Reads the clock.
    pub fn get(&self) -> (now: u64)
        ensures
            now == self@,
    {
        self.now
    }

    /// Moves the clock forward by `delta`.
    pub fn advance(&mut self, delta: u64)
        requires
            old(self)@ + delta <= u64::MAX,
        ensures
            final(self)@ == old(self)@ + delta,
    {
        self.now = self.now + delta;
    }

    /// Moves the clock forward by `delta` unless the sum would leave `u64`;
    /// says whether it moved.
    pub fn try_advance(&mut self, delta: u64) -> (moved: bool)
        ensures
            moved <==> old(self)@ + delta <= u64::MAX,
            moved ==> final(self)@ == old(self)@ + delta,
            !moved ==> final(self)@ == old(self)@,
    {
        if delta <= u64::MAX - self.now {
            self.now = self.now + delta;
            true
        } else {
            false
        }
    }
}

} // verus!

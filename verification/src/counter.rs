use vstd::prelude::*;

verus! {

/// Tracks how many relay sessions are currently open on one route.
///
/// The count is a best-effort observability signal, not a capacity limit:
/// nothing admits or refuses connections based on it. Every decrement
/// corresponds to an earlier increment for the same route, so the value
/// never goes below zero in a well-formed listener.
pub struct ConnectionCounter {
    value: i64,
}

impl ConnectionCounter {
    /// The current count, as a mathematical integer.
    pub closed spec fn count(self) -> int {
        self.value as int
    }

    /// A fresh counter starts at zero.
    pub fn new() -> (c: ConnectionCounter)
        ensures
            c.count() == 0,
    {
        ConnectionCounter { value: 0 }
    }

    /// Adds one to the count and returns the new value.
    pub fn increment(&mut self) -> (n: i64)
        requires
            old(self).count() < i64::MAX,
        ensures
            final(self).count() == old(self).count() + 1,
            n as int == final(self).count(),
    {
        self.value = self.value + 1;
        self.value
    }

    /// Subtracts one from the count and returns the new value.
    pub fn decrement(&mut self) -> (n: i64)
        requires
            old(self).count() > i64::MIN,
        ensures
            final(self).count() == old(self).count() - 1,
            n as int == final(self).count(),
    {
        self.value = self.value - 1;
        self.value
    }

    /// Reads the current value.
    pub fn current(&self) -> (n: i64)
        ensures
            n as int == self.count(),
    {
        self.value
    }
}

} // verus!

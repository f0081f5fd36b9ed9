use vstd::prelude::*;

verus! {

/// Deterministic fake clock used by no-hardware tests.
#[derive(Clone, Copy, Debug, PartialEq, Eq)]
pub struct FakeClock {
    now_ms: u64,
}

impl FakeClock {
    /// A clock reading zero.
    pub fn new() -> (r: FakeClock)
        ensures
            r.reading() == 0,
    {
        FakeClock { now_ms: 0 }
    }

    /// The clock's reading in milliseconds.
    pub closed spec fn reading(self) -> u64 {
        self.now_ms
    }

    /// Current fake timestamp in milliseconds.
    pub fn now_ms(self) -> (r: u64)
        ensures
            r == self.reading(),
    {
        self.now_ms
    }

    /// Advance the fake clock, saturating at `u64::MAX`.
    pub fn advance_ms(&mut self, ms: u64)
        ensures
            final(self).reading() == if old(self).reading() + ms > u64::MAX {
                u64::MAX as int
            } else {
                old(self).reading() + ms
            },
    {
        self.now_ms = self.now_ms.saturating_add(ms);
    }
}

impl Default for FakeClock {
    /// A clock reading zero.
    fn default() -> (r: FakeClock)
        ensures
            r.reading() == 0,
    {
        FakeClock::new()
    }
}

} // verus!

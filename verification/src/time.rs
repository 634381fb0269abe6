//! Points in time, counted in ticks of the system timer.
use vstd::prelude::*;

verus! {

/// A point in time during execution: the number of timer ticks counted
/// until then. Only differences between instants mean anything.
#[derive(Debug, Copy, Clone, Eq, PartialEq, Structural)]
pub struct Instant {
    tick: u64,
}

impl Instant {
    /// The tick count of this instant.
    pub closed spec fn spec_tick(&self) -> u64 {
        self.tick
    }

    /// The instant at which the tick counter read `tick`.
    pub fn from_tick(tick: u64) -> (r: Self)
        ensures
            r.spec_tick() == tick,
    {
        Self { tick }
    }

    /// The tick count of this instant.
    pub fn tick(&self) -> (r: u64)
        ensures
            r == self.spec_tick(),
    {
        self.tick
    }

    /// The ticks elapsed from this instant until `now`; none when `now`
    /// comes earlier.
    pub fn elapsed(&self, now: Instant) -> (r: u64)
        ensures
            r == (if now.spec_tick() < self.spec_tick() {
                0
            } else {
                now.spec_tick() - self.spec_tick()
            }),
    {
        if now.tick < self.tick {
            return 0;
        }
        now.tick - self.tick
    }
}

} // verus!

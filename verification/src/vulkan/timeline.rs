//! Points on the timelines of semaphores.

use vstd::prelude::*;

verus! {

/// How long a point is waited for, in nanoseconds.
pub const WAIT_TIMEOUT: u64 = 1_000_000_000;

/// A value that a semaphore, given by its handle, will reach.
#[derive(Debug, Clone, Copy, PartialEq, Eq, Structural)]
pub struct TimelinePoint {
    pub semaphore: u64,
    pub value: u64,
}

impl TimelinePoint {
    pub fn new(semaphore: u64, value: u64) -> (point: TimelinePoint)
        ensures
            point == (TimelinePoint { semaphore, value }),
    {
        TimelinePoint { semaphore, value }
    }

    /// A later point of the same timeline.
    pub open spec fn later(self, by: u64) -> TimelinePoint {
        TimelinePoint { semaphore: self.semaphore, value: (self.value + by) as u64 }
    }

    pub fn plus(self, by: u64) -> (point: TimelinePoint)
        requires
            self.value + by <= u64::MAX,
        ensures
            point == self.later(by),
    {
        TimelinePoint { semaphore: self.semaphore, value: self.value + by }
    }

    /// The semaphore counts up; it has reached every value up to its counter.
    pub open spec fn reached(self, counter: u64) -> bool {
        counter >= self.value
    }

    pub fn poll(&self, counter: u64) -> (reached: bool)
        ensures
            reached == self.reached(counter),
    {
        counter >= self.value
    }
}

/// Points are reached in order: with a point, all before it are reached, and
/// it stays reached as the semaphore counts up.
pub proof fn points_are_reached_in_order(
    point: TimelinePoint,
    by: u64,
    counter: u64,
    later_counter: u64,
)
    requires
        point.value + by <= u64::MAX,
        point.later(by).reached(counter),
        later_counter >= counter,
    ensures
        point.reached(counter),
        point.later(by).reached(later_counter),
{
}

} // verus!

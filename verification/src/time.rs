//! The time source: a monotonic microsecond clock, and the time value
//! that `get_time` hands back for storing into user memory.

use vstd::prelude::*;

verus! {

/// Time since an arbitrary epoch, split into whole seconds and the
/// microsecond remainder.  Written into user memory, never persisted.
#[derive(Clone, Copy, Debug)]
pub struct TimeVal {
    pub sec: usize,
    pub usec: usize,
}

/// The kernel's monotonic time source, modelled by the number of
/// microseconds elapsed since its epoch.
#[derive(Clone, Copy, Debug)]
pub struct Clock {
    pub us: usize,
}

impl Clock {
    pub fn new(us: usize) -> (r: Clock)
        ensures
            r.us == us,
    {
        Clock { us }
    }

    /// Microseconds since the epoch.
    pub fn get_time_us(&self) -> (r: usize)
        ensures
            r == self.us,
    {
        self.us
    }

    /// Milliseconds since the epoch.
    pub fn get_time_ms(&self) -> (r: usize)
        ensures
            r as int == self.us as int / 1000,
    {
        self.us / 1000
    }
}

} // verus!

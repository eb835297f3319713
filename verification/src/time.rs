//! Timeouts as user space hands them in.

use vstd::prelude::*;

verus! {

/// A time in seconds and nanoseconds, as read from user memory.
#[derive(Clone, Copy, Debug, PartialEq, Eq, Structural)]
pub struct TimeSecs {
    /// Whole seconds.
    pub tv_sec: usize,
    /// Nanoseconds on top of the seconds.
    pub tv_nsec: usize,
}

impl TimeSecs {
    /// The time in nanoseconds, as a mathematical integer.
    pub open spec fn total_nanos(self) -> int {
        self.tv_sec * 1_000_000_000 + self.tv_nsec
    }

    /// The time in nanoseconds, held at `u64::MAX` where it would not fit.
    pub open spec fn nanos(self) -> u64 {
        if self.total_nanos() <= u64::MAX {
            self.total_nanos() as u64
        } else {
            u64::MAX
        }
    }

    /// The time in nanoseconds; a time too long for 64 bits saturates.
    pub fn turn_to_nanos(&self) -> (r: u64)
        ensures
            r == self.nanos(),
    {
        let total: u128 = (self.tv_sec as u128) * 1_000_000_000u128 + (self.tv_nsec as u128);
        if total <= u64::MAX as u128 {
            total as u64
        } else {
            u64::MAX
        }
    }
}

/// How long a wait may block, in nanoseconds, given the timeout argument.
///
/// No argument, or a zero one, means no limit. A relative argument is the
/// limit itself. An absolute one is a deadline on the monotonic clock: the
/// limit is what is left of it at `now`, zero if it has passed.
pub open spec fn relative_timeout(timeout: Option<TimeSecs>, absolute: bool, now: u64) -> Option<u64> {
    match timeout {
        None => None,
        Some(t) => if t.nanos() == 0 {
            None
        } else if !absolute {
            Some(t.nanos())
        } else if t.nanos() >= now {
            Some((t.nanos() - now) as u64)
        } else {
            Some(0u64)
        },
    }
}

/// Computes [`relative_timeout`].
pub fn wait_timeout(timeout: Option<TimeSecs>, absolute: bool, now: u64) -> (r: Option<u64>)
    ensures
        r == relative_timeout(timeout, absolute, now),
{
    match timeout {
        None => None,
        Some(t) => {
            let nanos = t.turn_to_nanos();
            if nanos == 0 {
                None
            } else if !absolute {
                Some(nanos)
            } else if nanos >= now {
                Some(nanos - now)
            } else {
                Some(0)
            }
        },
    }
}

} // verus!

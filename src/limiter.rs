//! The rate limiter: a target-time throttle. From the units transferred since
//! the start and the target rate it computes when the transfer ought to be,
//! and how long to pause to get there.
use vstd::prelude::*;

verus! {

pub const NANOS_PER_SEC: u128 = 1_000_000_000;

/// Pauses this short or shorter are not taken.
pub const MIN_PAUSE_NANOS: u128 = 1_000_000;

/// The state of the rate limiter.
pub struct RateLimiter {
    /// Target units per second; 0 disables limiting.
    pub rate: u64,
    /// Units transferred since the start (held at `u64::MAX` once it gets there).
    pub total: u64,
}

/// The elapsed time, in nanoseconds, at which `total` units are due at `rate`
/// units per second.
pub open spec fn ideal_nanos(total: u64, rate: u64) -> nat
    recommends
        rate > 0,
{
    (total * NANOS_PER_SEC / rate as int) as nat
}

/// The pause that brings `elapsed` up to `ideal`: none when the transfer is
/// not ahead, or ahead by no more than the shortest pause.
pub open spec fn pause_for(ideal: nat, elapsed: nat) -> nat {
    if ideal > elapsed && ideal - elapsed > MIN_PAUSE_NANOS {
        (ideal - elapsed) as nat
    } else {
        0
    }
}

impl RateLimiter {
    /// A limiter with the given target; none, or 0, disables limiting.
    pub fn new(rate: Option<u64>) -> (l: RateLimiter)
        ensures
            l.rate == match rate {
                Some(r) => r,
                None => 0,
            },
            l.total == 0,
    {
        RateLimiter {
            rate: match rate {
                Some(r) => r,
                None => 0,
            },
            total: 0,
        }
    }

    /// Adds the units of one chunk to the running total.
    pub fn record(&mut self, units: u64)
        ensures
            final(self).rate == old(self).rate,
            final(self).total == if old(self).total + units <= u64::MAX {
                old(self).total + units
            } else {
                u64::MAX as int
            },
    {
        self.total = self.total.saturating_add(units);
    }

    /// How long to pause, in nanoseconds, `elapsed` nanoseconds after the
    /// start: none when limiting is off.
    pub fn pause_nanos(&self, elapsed: u128) -> (r: u128)
        ensures
            self.rate == 0 ==> r == 0,
            self.rate > 0 ==> r == pause_for(ideal_nanos(self.total, self.rate), elapsed as nat),
    {
        if self.rate == 0 {
            return 0;
        }
        assert(self.total * NANOS_PER_SEC <= u64::MAX * NANOS_PER_SEC) by (nonlinear_arith)
            requires
                self.total <= u64::MAX,
        ;
        let ideal: u128 = (self.total as u128) * NANOS_PER_SEC / (self.rate as u128);
        if ideal > elapsed && ideal - elapsed > MIN_PAUSE_NANOS {
            ideal - elapsed
        } else {
            0
        }
    }
}

/// A pause brings the transfer to its ideal time for the units so far, and
/// never beyond it: after the pause the elapsed time is at least the ideal
/// time less the shortest pause, and it exceeds the ideal time only when no
/// pause was taken.
pub proof fn law_rate_pace(total: u64, rate: u64, elapsed: nat)
    requires
        rate > 0,
    ensures
        elapsed + pause_for(ideal_nanos(total, rate), elapsed) + MIN_PAUSE_NANOS >= ideal_nanos(
            total,
            rate,
        ),
        pause_for(ideal_nanos(total, rate), elapsed) > 0 ==> elapsed + pause_for(
            ideal_nanos(total, rate),
            elapsed,
        ) == ideal_nanos(total, rate),
{
}

} // verus!

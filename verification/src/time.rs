//! Points in time.
use vstd::prelude::*;

verus! {

pub const NANOS_PER_SEC: i128 = 1_000_000_000;

/// A point in time, in nanoseconds since the Unix epoch.
#[derive(Debug, Clone, Copy, PartialEq, Eq, Structural)]
pub struct SystemTime {
    pub nanos: i128,
}

/// The seconds that a time to live stands for when its bits are read as an unsigned number.
pub open spec fn ttl_secs(ttl: i64) -> int {
    if ttl < 0 {
        ttl + 0x1_0000_0000_0000_0000
    } else {
        ttl as int
    }
}

impl SystemTime {
    /// Whether the time lies within the seconds that the system clock counts.
    pub open spec fn in_range(self) -> bool {
        i64::MIN * NANOS_PER_SEC <= self.nanos < (i64::MAX + 1) * NANOS_PER_SEC
    }

    /// The time `secs` seconds later.
    pub open spec fn later(self, secs: int) -> Self {
        SystemTime { nanos: (self.nanos + secs * NANOS_PER_SEC) as i128 }
    }

    /// Whether a lease granted now for `ttl` seconds ends within the range of the clock.
    pub open spec fn ttl_fits(self, ttl: i64) -> bool {
        self.in_range() && self.nanos + ttl_secs(ttl) * NANOS_PER_SEC < (i64::MAX + 1)
            * NANOS_PER_SEC
    }

    /// Whether a lease granted now for `ttl` seconds ends within the range of the clock.
    pub fn has_room(self, ttl: i64) -> (r: bool)
        ensures
            r == self.ttl_fits(ttl),
    {
        let secs = ttl as u64;
        assert(secs == ttl_secs(ttl)) by {
            assert(ttl >= 0 ==> (ttl as u64) == ttl) by (bit_vector);
            assert(ttl < 0 ==> (ttl as u64) == ttl + 0x1_0000_0000_0000_0000) by (bit_vector);
        }
        let lowest: i128 = -9_223_372_036_854_775_808_000_000_000;
        let end: i128 = 9_223_372_036_854_775_808_000_000_000;
        lowest <= self.nanos && self.nanos < end && self.nanos + secs as i128 * NANOS_PER_SEC < end
    }

    /// When a lease that is granted now for `ttl` seconds expires.
    pub fn expiry(self, ttl: i64) -> (r: Self)
        requires
            self.ttl_fits(ttl),
        ensures
            r == self.later(ttl_secs(ttl)),
            r.in_range(),
            ttl >= 0 ==> r.nanos - self.nanos == ttl * 1_000_000_000,
    {
        let secs = ttl as u64;
        assert(secs == ttl_secs(ttl)) by {
            assert(ttl >= 0 ==> (ttl as u64) == ttl) by (bit_vector);
            assert(ttl < 0 ==> (ttl as u64) == ttl + 0x1_0000_0000_0000_0000) by (bit_vector);
        }
        SystemTime { nanos: self.nanos + secs as i128 * NANOS_PER_SEC }
    }
}

/// A lease ends exactly as many seconds after it was granted as it was granted for; a negative time
/// to live is read as the unsigned number of the same bits.
pub proof fn lease_ends_after_its_time_to_live(now: SystemTime, ttl: i64)
    requires
        now.ttl_fits(ttl),
    ensures
        ttl >= 0 ==> now.later(ttl_secs(ttl)).nanos - now.nanos == ttl * 1_000_000_000,
        ttl < 0 ==> now.later(ttl_secs(ttl)).nanos - now.nanos == (ttl
            + 18_446_744_073_709_551_616) * 1_000_000_000,
{
}

/// A lease fits exactly when the time it is granted at and the time it ends at, in seconds, are
/// numbers of 64 bits with a sign.
pub proof fn lease_fits_where_its_end_is_a_time(now: SystemTime, ttl: i64)
    requires
        ttl >= 0,
    ensures
        now.ttl_fits(ttl) <==> -9_223_372_036_854_775_808_000_000_000 <= now.nanos && now.nanos + ttl
            * 1_000_000_000 < 9_223_372_036_854_775_808_000_000_000,
{
}

}

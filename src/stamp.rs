use vstd::prelude::*;

verus! {

/// Seconds in one calendar day.
pub const SECS_PER_DAY: i64 = 86400;

/// Bound on the magnitude of a timestamp, in seconds from the Unix epoch.
/// It covers every instant that chrono can represent (years -262143 to 262142).
pub const STAMP_LIMIT: i64 = 10_000_000_000_000;

/// An instant in local time: seconds since the Unix epoch (UTC), together with
/// the local offset from UTC, in seconds, that was in force at that instant.
#[derive(Clone, Copy, Debug, PartialEq, Eq, Structural)]
pub struct Stamp {
    pub secs: i64,
    pub offset: i32,
}

impl Stamp {
    /// The instant lies within the representable range and the offset is less
    /// than a whole day either way.
    pub open spec fn valid(self) -> bool {
        &&& -STAMP_LIMIT <= self.secs <= STAMP_LIMIT
        &&& -SECS_PER_DAY < self.offset < SECS_PER_DAY
    }

    /// The local calendar day of this instant, counted in days from 1970-01-01.
    pub open spec fn local_day(self) -> int {
        (self.secs + self.offset) / (SECS_PER_DAY as int)
    }

    /// Whether the instant and the offset are within range.
    pub fn is_valid(&self) -> (r: bool)
        ensures
            r == self.valid(),
    {
        -STAMP_LIMIT <= self.secs && self.secs <= STAMP_LIMIT && -SECS_PER_DAY < self.offset as i64
            && (self.offset as i64) < SECS_PER_DAY
    }

    /// The local calendar day of this instant, counted in days from 1970-01-01.
    pub fn day(&self) -> (r: i64)
        requires
            self.valid(),
        ensures
            r == self.local_day(),
    {
        let local: i64 = self.secs + self.offset as i64;
        match local.checked_div_euclid(SECS_PER_DAY) {
            Some(d) => d,
            None => {
                proof {
                    assert(false);
                }
                0
            },
        }
    }
}

/// Whole seconds from `start` to `end`, or zero where `end` comes before `start`.
pub open spec fn clamped_secs(start: Stamp, end: Stamp) -> int {
    if end.secs >= start.secs {
        end.secs - start.secs
    } else {
        0
    }
}

/// Whole seconds from `start` to `end`, or zero where `end` comes before `start`.
pub fn elapsed_secs(start: Stamp, end: Stamp) -> (r: i64)
    requires
        start.valid(),
        end.valid(),
    ensures
        r == clamped_secs(start, end),
        0 <= r <= 2 * STAMP_LIMIT,
{
    if end.secs >= start.secs {
        end.secs - start.secs
    } else {
        0
    }
}

} // verus!

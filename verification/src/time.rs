//! Points in time as whole seconds since the Unix epoch, in UTC.

use vstd::prelude::*;

verus! {

/// Size of the smallest block possible, in minutes.
pub const BLOCK_UNIT_SIZE: u64 = 15;

/// Size of the smallest block possible, in seconds.
pub const UNIT_SECONDS: u64 = 900;

/// Seconds in an hour.
pub const HOUR_SECONDS: u64 = 3600;

/// Seconds in a day.
pub const DAY_SECONDS: u64 = 86_400;

/// Last second that the library computes with: the end of the year 9999.
pub const MAX_TIME: u64 = 253_402_300_799;

/// `t` rounded down to a multiple of `unit`.
pub open spec fn truncated(t: int, unit: int) -> int {
    t - t % unit
}

/// Start of the block unit that holds `t`.
pub fn truncate_to_unit(t: u64) -> (r: u64)
    ensures
        r == truncated(t as int, UNIT_SECONDS as int),
        r <= t,
        t - r < UNIT_SECONDS,
{
    t - t % UNIT_SECONDS
}

/// Start of the hour that holds `t`.
pub fn truncate_to_hour(t: u64) -> (r: u64)
    ensures
        r == truncated(t as int, HOUR_SECONDS as int),
        r <= t,
        t - r < HOUR_SECONDS,
{
    t - t % HOUR_SECONDS
}

/// Start of the UTC day that holds `t`.
pub fn truncate_to_day(t: u64) -> (r: u64)
    ensures
        r == truncated(t as int, DAY_SECONDS as int),
        r <= t,
        t - r < DAY_SECONDS,
{
    t - t % DAY_SECONDS
}

} // verus!

//! The inverter's schedule for charging from grid.

use vstd::prelude::*;

verus! {

/// The inverter's answer when asked for its charge schedule.
#[derive(Clone, Copy, PartialEq, Eq, Structural, Debug)]
pub struct ChargingTimeResult {
    pub result: ChargingTimeSchedule,
}

/// Two spans of the day in which the inverter charges from grid.
#[derive(Clone, Copy, PartialEq, Eq, Structural, Debug)]
pub struct ChargingTimeSchedule {
    pub enable_1: bool,
    pub start_time_1: ChargingTime,
    pub end_time_1: ChargingTime,
    pub enable_2: bool,
    pub start_time_2: ChargingTime,
    pub end_time_2: ChargingTime,
}

/// A time of day, to the minute.
#[derive(Clone, Copy, PartialEq, Eq, Structural, Debug)]
pub struct ChargingTime {
    pub hour: u8,
    pub minute: u8,
}

} // verus!

//! The inverter's clock, as text.

use vstd::prelude::*;

verus! {

/// The inverter's answer when asked for its time.
#[derive(Debug)]
pub struct DeviceTimeResult {
    pub result: DeviceTime,
}

/// The inverter's time, each part as text.
#[derive(Debug)]
pub struct DeviceTime {
    pub year: String,
    pub month: String,
    pub day: String,
    pub hour: String,
    pub minute: String,
    pub second: String,
}

} // verus!

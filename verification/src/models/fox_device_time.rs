//! The inverter's clock, as the cloud service takes and gives it.

use vstd::prelude::*;

verus! {

/// The cloud service's answer when asked for the inverter's time.
#[derive(Debug)]
pub struct DeviceTimeResult {
    pub result: DeviceTime,
}

/// The inverter's time, each part as text, with the inverter's serial number.
#[derive(Debug)]
pub struct DeviceTime {
    pub sn: String,
    pub year: String,
    pub month: String,
    pub day: String,
    pub hour: String,
    pub minute: String,
    pub second: String,
}

/// The request for the inverter's time.
#[derive(Debug)]
pub struct RequestTime {
    pub sn: String,
}

} // verus!

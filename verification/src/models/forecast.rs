//! The weather forecast as it is read and as it is handed on.

use vstd::prelude::*;

verus! {

/// One hour of a forecast as it is read.
#[derive(Clone, Copy, Debug)]
pub struct ForecastRecord {
    pub date_time: u64,
    /// Air temperature, in thousandths of a degree Celsius.
    pub temperature: i64,
    /// Cloud cover of the low, medium and high layer, in eighths.
    pub lcc_mean: u8,
    pub mcc_mean: u8,
    pub hcc_mean: u8,
}

/// One hour of a forecast as it is handed on.
#[derive(Clone, Copy, Debug)]
pub struct ForecastValues {
    pub valid_time: u64,
    /// Air temperature, in thousandths of a degree Celsius.
    pub temp: i64,
    /// Cloud cover of the low, medium and high layer, in thousandths of an eighth.
    pub lcc_mean: u64,
    pub mcc_mean: u64,
    pub hcc_mean: u64,
    /// Share of the light that the clouds let through, in millionths.
    pub cloud_factor: u64,
}

} // verus!

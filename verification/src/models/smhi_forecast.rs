//! The weather service's forecast.

use vstd::prelude::*;

verus! {

/// The values of one hour.
#[derive(Clone, Copy, Debug)]
pub struct Data {
    /// Air temperature, in thousandths of a degree Celsius.
    pub air_temperature: i64,
    /// Cloud cover of each layer, in thousandths of an eighth.
    pub low_type_cloud_area_fraction: u64,
    pub medium_type_cloud_area_fraction: u64,
    pub high_type_cloud_area_fraction: u64,
}

/// One hour of the forecast.
#[derive(Clone, Copy, Debug)]
pub struct FullTimeSeries {
    pub time: u64,
    pub data: Data,
}

/// The whole forecast.
#[derive(Debug)]
pub struct FullForecast {
    pub time_series: Vec<FullTimeSeries>,
}

/// One hour of the forecast as the estimators take it.
#[derive(Clone, Copy, Debug)]
pub struct ForecastValues {
    /// Start of the hour.
    pub valid_time: u64,
    /// Air temperature, in thousandths of a degree Celsius.
    pub temp: i64,
    /// Cloud cover of the low, medium and high layer, in thousandths of an eighth.
    pub lcc_mean: u64,
    pub mcc_mean: u64,
    pub hcc_mean: u64,
    /// Share of the light that the clouds let through, in millionths.
    pub cloud_factor: u64,
}

} // verus!

//! What the inverter recorded over a span of time.

use vstd::prelude::*;

verus! {

/// The request for recorded values.
#[derive(Debug)]
pub struct RequestDeviceHistoryData {
    pub sn: String,
    pub variables: Vec<String>,
    /// Start and end of the span, in milliseconds since the epoch.
    pub begin: i64,
    pub end: i64,
}

/// One recorded value, in thousandths of its unit.
#[derive(Debug)]
pub struct Data {
    pub time: String,
    pub value: i64,
}

/// The recorded values of one variable.
#[derive(Debug)]
pub struct DataSet {
    pub data: Vec<Data>,
    pub variable: String,
}

/// The recorded values of one inverter.
#[derive(Debug)]
pub struct DeviceHistoryData {
    pub data_set: Vec<DataSet>,
}

/// The cloud service's answer when asked for recorded values.
#[derive(Debug)]
pub struct DeviceHistoryResult {
    pub result: Vec<DeviceHistoryData>,
}

/// The recorded values of one day, variable by variable.
#[derive(Debug)]
pub struct DeviceHistory {
    /// Start of the day.
    pub date: u64,
    pub time: Vec<String>,
    /// Power of the panels and of the load, in W.
    pub pv_power: Vec<i64>,
    pub ld_power: Vec<i64>,
    /// State of charge, in percent.
    pub soc: Vec<u8>,
}

} // verus!

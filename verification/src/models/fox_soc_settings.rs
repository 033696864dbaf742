//! Requests and answers on the battery's state, as the cloud service has them.

use vstd::prelude::*;

verus! {

/// The request for the present state of several inverters.
#[derive(Debug)]
pub struct RequestCurrentBatState {
    pub variables: Vec<String>,
    pub sns: Vec<String>,
}

/// The cloud service's answer with present values.
#[derive(Debug)]
pub struct DeviceRealTimeResult {
    pub result: Vec<RealTimeVariables>,
}

/// The present values of one inverter.
#[derive(Debug)]
pub struct RealTimeVariables {
    pub datas: Vec<RealTimeData>,
}

/// One present value, in thousandths of its unit.
#[derive(Debug)]
pub struct RealTimeData {
    pub variable: String,
    pub value: i64,
}

/// The request to change a setting of the inverter.
#[derive(Debug)]
pub struct SetSoc {
    pub sn: String,
    pub key: String,
    pub value: String,
}

} // verus!

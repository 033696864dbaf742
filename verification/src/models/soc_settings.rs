//! Requests and answers on the state of charge and its limits.

use vstd::prelude::*;

verus! {

/// The cloud service's answer with the present state of charge.
#[derive(Debug)]
pub struct SocCurrentResult {
    pub result: Vec<SocCurrentVariables>,
}

/// The present values of one inverter.
#[derive(Debug)]
pub struct SocCurrentVariables {
    pub datas: Vec<SocCurrentData>,
    pub time: String,
    pub device_sn: String,
}

/// One present value, in thousandths of its unit.
#[derive(Debug)]
pub struct SocCurrentData {
    pub unit: String,
    pub name: String,
    pub variable: String,
    pub value: i64,
}

/// The request for the present state of charge.
#[derive(Debug)]
pub struct RequestCurrentSoc {
    pub sn: String,
    pub variables: Vec<String>,
}

/// The cloud service's answer with a limit of the state of charge.
#[derive(Debug)]
pub struct SocSettingResult {
    pub result: SocSetting,
}

/// A limit of the state of charge and what it may be set to.
#[derive(Debug)]
pub struct SocSetting {
    pub unit: String,
    /// Step of the setting, in thousandths.
    pub precision: i64,
    pub range: SocSettingRange,
    pub value: String,
}

/// The range of a setting, in thousandths.
#[derive(Clone, Copy, Debug)]
pub struct SocSettingRange {
    pub min: i64,
    pub max: i64,
}

/// The request for a limit of the state of charge.
#[derive(Debug)]
pub struct RequestSoc {
    pub sn: String,
    pub key: String,
}

/// The request to set a limit of the state of charge.
#[derive(Debug)]
pub struct SetSoc {
    pub sn: String,
    pub key: String,
    pub value: String,
}

} // verus!

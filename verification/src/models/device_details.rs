//! What the inverter tells of itself.

use vstd::prelude::*;

verus! {

/// The inverter's answer when asked for its details.
#[derive(Debug)]
pub struct DeviceDetailsResult {
    pub result: DeviceDetails,
}

/// Details of the inverter.
#[derive(Debug)]
pub struct DeviceDetails {
    pub device_type: String,
    pub master_version: String,
    pub afci_version: String,
    pub has_pv: bool,
    pub device_sn: String,
    pub slave_version: String,
    pub has_battery: bool,
    pub function: DeviceDetailsFunction,
    pub hardware_version: String,
    pub manager_version: String,
    pub station_name: String,
    pub module_sn: String,
    pub product_type: String,
    pub station_id: String,
    pub status: u8,
}

/// What the inverter can do.
#[derive(Clone, Copy, PartialEq, Eq, Structural, Debug)]
pub struct DeviceDetailsFunction {
    pub scheduler: bool,
}

} // verus!

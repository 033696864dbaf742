//! The configuration that the library works from.

use vstd::prelude::*;

verus! {

/// Battery and charging parameters.
#[derive(Clone, Copy, Debug)]
pub struct Charge {
    /// Energy that one percent of state of charge stands for, in Wh.
    pub soc_wh: u64,
    /// Full capacity of the battery, in Wh.
    pub bat_capacity: u64,
    /// Usable capacity of the battery, in Wh.
    pub bat_wh: u64,
    /// Energy that can be drawn from the grid in one hour of charging, in Wh.
    pub charge_wh_hour: u64,
    /// Share of the energy drawn from the grid that ends up stored, in thousandths.
    pub charge_efficiency: u64,
    /// Share of the stored energy that reaches the house, in thousandths.
    pub discharge_efficiency: u64,
    /// Weight of the sell tariff against the buy tariff, in thousandths.
    pub sell_priority: u64,
    /// Lowest mean buy tariff at which a use block is worth scheduling, in
    /// millionths of a currency unit per kWh.
    pub min_use_tariff: u64,
}

/// The lowest mean buy tariff for a use block where none is configured:
/// half a currency unit per kWh.
pub const DEFAULT_MIN_USE_TARIFF: u64 = 500_000;

/// Access to the inverter's cloud service.
#[derive(Debug)]
pub struct FoxESS {
    pub api_key: String,
    pub inverter_sn: String,
}

/// Access to the mail service.
#[derive(Debug)]
pub struct MailParameters {
    pub smtp_user: String,
    pub smtp_password: String,
    pub smtp_endpoint: String,
    pub from: String,
    pub to: String,
}

/// Where the files are.
#[derive(Debug)]
pub struct Files {
    pub schedule_dir: String,
    pub backup_dir: String,
    pub stats_dir: String,
    pub manual_file: String,
    pub pv_diagram: String,
    pub cons_diagram: String,
}

/// General settings.
#[derive(Debug)]
pub struct General {
    /// A fixed time to run at, for debugging.
    pub debug_run_time: Option<u64>,
    pub log_path: String,
    pub log_level: String,
    pub log_to_stdout: bool,
    pub debug_mode: bool,
}

/// Where the house stands, in millionths of a degree.
#[derive(Clone, Copy, Debug)]
pub struct GeoRef {
    pub lat: i64,
    pub long: i64,
}

/// The whole configuration.
#[derive(Debug)]
pub struct Config {
    pub charge: Charge,
    pub fox_ess: FoxESS,
    pub mail: MailParameters,
    pub files: Files,
    pub general: General,
}

} // verus!

//! Plain records that cross the library's border.

pub mod charging_time_schedule;
pub mod device_details;
pub mod device_time;
pub mod forecast;
pub mod fox_device_history_data;
pub mod fox_device_time;
pub mod fox_soc_settings;
pub mod nordpool_tariffs;
pub mod sendgrid;
pub mod smhi_forecast;
pub mod soc_settings;

//! Control core of a home photovoltaic and battery energy supervisor.
//!
//! All quantities are fixed-point integers: energy in watt-hours, tariffs in
//! millionths of a currency unit per kilowatt-hour, money in billionths of a
//! currency unit, efficiencies and weights in thousandths, state of charge in
//! whole percent, time in seconds since the Unix epoch (UTC).

pub mod backup;
pub mod calendar;
pub mod charge;
pub mod charge_level;
pub mod config;
pub mod consumption;
pub mod errors;
pub mod grouping;
pub mod initialization;
pub mod manager_fox_cloud;
pub mod manager_mail;
pub mod manager_nordpool;
pub mod manager_smhi;
pub mod manual;
pub mod models;
pub mod optimizer;
pub mod production;
pub mod scheduler;
pub mod scheduling;
pub mod skips;
pub mod spline;
pub mod text;
pub mod time;
pub mod time_blocks;
pub mod units;
pub mod worker;

//! Spot prices as the market publishes them, and as the optimizer takes them.

use vstd::prelude::*;

verus! {

/// Spot price of one area, in thousandths of a currency unit per MWh.
#[derive(Clone, Copy, Debug)]
pub struct EntryPerArea {
    pub se4: i64,
}

/// One hour of the market's answer.
#[derive(Clone, Copy, Debug)]
pub struct MultiAreaEntries {
    /// Start of delivery.
    pub delivery_start: u64,
    pub entry_per_area: EntryPerArea,
}

/// The market's answer for one day.
#[derive(Clone, Debug)]
pub struct Tariffs {
    pub multi_area_entries: Vec<MultiAreaEntries>,
}

/// Tariffs of one hour, in millionths of a currency unit per kWh.
#[derive(Clone, Copy, Debug)]
pub struct TariffValues {
    /// Start of the hour.
    pub valid_time: u64,
    /// Spot price.
    pub price: i64,
    /// What buying costs, with fees and taxes.
    pub buy: i64,
    /// What selling brings.
    pub sell: i64,
}

} // verus!

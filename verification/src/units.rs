//! Units and limits shared by the whole library.

use vstd::prelude::*;

verus! {

/// Lowest state of charge, in percent, that the battery is allowed to reach.
pub const MIN_SOC: u8 = 10;

/// Highest state of charge, in percent.
pub const MAX_SOC: u8 = 100;

/// Highest usable level: percent above the floor.
pub const MAX_LEVEL: u8 = 90;

/// Largest energy, in Wh, that the library computes with.
pub const MAX_ENERGY: u64 = 100_000_000;

/// Largest energy, in Wh, that one percent of state of charge may stand for.
pub const MAX_SOC_WH: u64 = 1_000_000;

/// Largest tariff, in millionths of a currency unit per kWh.
pub const MAX_TARIFF: u64 = 100_000_000;

/// One whole, for quantities given in thousandths.
pub const PER_MILLE: u64 = 1000;

/// Number of hours that a plan can cover.
pub const MAX_HOURS: usize = 24;

/// `soc` held to the range from [`MIN_SOC`] to [`MAX_SOC`].
pub open spec fn clamped_soc(soc: int) -> int {
    if soc < MIN_SOC {
        MIN_SOC as int
    } else if soc > MAX_SOC {
        MAX_SOC as int
    } else {
        soc
    }
}

/// Holds a state of charge to the range that the inverter accepts.
pub fn clamp_soc(soc: u8) -> (r: u8)
    ensures
        r == clamped_soc(soc as int),
        MIN_SOC <= r <= MAX_SOC,
{
    if soc < MIN_SOC {
        MIN_SOC
    } else if soc > MAX_SOC {
        MAX_SOC
    } else {
        soc
    }
}

/// Usable energy, in Wh, that the state of charge `soc` stands for when one
/// percent holds `soc_wh`; no more than a `u64` can hold.
pub open spec fn available_charge(soc: int, soc_wh: int) -> int {
    let wh = (clamped_soc(soc) - MIN_SOC) * soc_wh;
    if wh > u64::MAX {
        u64::MAX as int
    } else {
        wh
    }
}

/// Usable energy, in Wh, at a state of charge as the inverter reports it,
/// that is with the ten percent that cannot be used.
pub fn soc_to_available_charge(soc: u8, soc_wh: u64) -> (r: u64)
    ensures
        r == available_charge(soc as int, soc_wh as int),
        soc_wh <= MAX_SOC_WH ==> r == (clamped_soc(soc as int) - MIN_SOC) * soc_wh && r <= 90
            * soc_wh,
{
    let level: u128 = (clamp_soc(soc) - MIN_SOC) as u128;
    assert(level * (soc_wh as u128) <= 90 * 0xffff_ffff_ffff_ffff) by (nonlinear_arith)
        requires
            level <= 90,
            soc_wh <= 0xffff_ffff_ffff_ffff,
    ;
    assert(soc_wh <= MAX_SOC_WH ==> level * (soc_wh as u128) <= 90 * soc_wh) by (nonlinear_arith)
        requires
            level <= 90,
    ;
    let wh: u128 = level * (soc_wh as u128);
    if wh > u64::MAX as u128 {
        u64::MAX
    } else {
        wh as u64
    }
}

} // verus!

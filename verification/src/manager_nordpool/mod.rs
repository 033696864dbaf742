//! From the spot prices of the market to the tariffs that the household
//! pays and gets. Fetching the prices is not part of the library.

use vstd::prelude::*;
use vstd::string::StringExecFns;
use crate::models::nordpool_tariffs::{TariffValues, Tariffs};
use crate::time::truncate_to_hour;
use crate::time::{truncated, HOUR_SECONDS};

verus! {

/// Largest spot price, up or down, that is taken, in millionths of a
/// currency unit per kWh.
pub const MAX_SPOT: i64 = 1_000_000_000;

/// Largest fee or tax that is taken, in millionths of a currency unit per kWh.
pub const MAX_FEE: u64 = 1_000_000_000;

/// One hundredth of a currency unit, in millionths.
pub const CENT: i64 = 10_000;

/// Number of prices that the market gives for a day.
pub const DAY_PRICES: usize = 24;

/// Error of the spot market.
#[derive(Debug)]
pub enum NordPoolError {
    /// The market has no prices for the day yet.
    NoContent,
    /// The market's answer is not what it should be.
    Document(String),
}

/// The fees and taxes that are added to the spot price, in millionths of a
/// currency unit per kWh unless said otherwise.
#[derive(Clone, Copy, Debug)]
pub struct NordPool {
    /// Fee for the net, value added tax included.
    pub net_fee: u64,
    /// Fee of the seller on the spot price, in thousandths of it, without
    /// value added tax.
    pub spot_fee: u64,
    /// Tax on energy, value added tax included.
    pub energy_tax: u64,
    /// Variable fees, without value added tax.
    pub variable_fee: u64,
    /// Other fees, without value added tax.
    pub extra_fee: u64,
    /// Value added tax, in thousandths of the price that includes it.
    pub vat: u64,
    /// What is paid on top of the spot price for what is sold.
    pub sell_extra: u64,
}

/// `a / b` rounded to the nearest whole number, halves away from zero.
pub open spec fn rounded_div(a: int, b: int) -> int {
    if a >= 0 {
        (2 * a + b) / (2 * b)
    } else {
        -((2 * (-a) + b) / (2 * b))
    }
}

/// `price` rounded to whole hundredths of a currency unit.
pub open spec fn two_decimals(price: int) -> int {
    rounded_div(price, CENT as int) * CENT
}

impl NordPool {
    /// The fees are within the limits, and the value added tax leaves
    /// something of the price.
    pub open spec fn wf(&self) -> bool {
        &&& self.net_fee <= MAX_FEE
        &&& self.spot_fee <= 1000
        &&& self.energy_tax <= MAX_FEE
        &&& self.variable_fee <= MAX_FEE
        &&& self.extra_fee <= MAX_FEE
        &&& self.vat < 1000
        &&& self.sell_extra <= MAX_FEE
    }

    /// What buying a kWh costs at the spot price `p`, before rounding:
    /// the fee for the net and the tax on energy as they are, and the spot
    /// price with the seller's fee on it, the variable and the other fees,
    /// with value added tax on top.
    pub open spec fn buy_price(&self, p: int) -> int {
        let taxed = self.spot_fee * p + 1000 * (p + self.variable_fee + self.extra_fee);
        self.net_fee + self.energy_tax + rounded_div(taxed, 1000 - self.vat)
    }

    /// What selling a kWh brings at the spot price `p`, before rounding.
    pub open spec fn sell_price(&self, p: int) -> int {
        p + self.sell_extra
    }

    /// The tariffs of the hour that begins at or before `delivery_start`,
    /// at the spot price `p`.
    pub open spec fn tariff_of(&self, p: i64, delivery_start: u64) -> TariffValues {
        TariffValues {
            valid_time: truncated(delivery_start as int, HOUR_SECONDS as int) as u64,
            price: two_decimals(p as int) as i64,
            buy: two_decimals(self.buy_price(p as int)) as i64,
            sell: two_decimals(self.sell_price(p as int)) as i64,
        }
    }

    /// Returns the fees as they are in the south of Sweden: a net fee of
    /// 31.625 hundredths, a seller's fee of 7.7 percent, an energy tax of
    /// 54.875 hundredths, variable fees of 7.696 and other fees of 2.4
    /// hundredths, value added tax of a fifth of the price, and 7.5
    /// hundredths on top of the spot price for what is sold.
    pub fn new() -> (r: NordPool)
        ensures
            r.wf(),
            r == (NordPool {
                net_fee: 316_250,
                spot_fee: 77,
                energy_tax: 548_750,
                variable_fee: 76_960,
                extra_fee: 24_000,
                vat: 200,
                sell_extra: 75_000,
            }),
    {
        NordPool {
            net_fee: 316_250,
            spot_fee: 77,
            energy_tax: 548_750,
            variable_fee: 76_960,
            extra_fee: 24_000,
            vat: 200,
            sell_extra: 75_000,
        }
    }

    /// The tariffs of a day, with those of the day after where they were
    /// to be had.
    pub fn get_tariffs(day: Vec<TariffValues>, next_day: Option<Vec<TariffValues>>) -> (r: Vec<
        TariffValues,
    >)
        ensures
            r@ == match next_day {
                Some(n) => day@ + n@,
                None => day@,
            },
    {
        let mut result = day;
        match next_day {
            Some(mut n) => {
                result.append(&mut n);
            },
            None => {},
        }
        result
    }

    /// Checks the fees against the limits.
    pub fn is_valid(&self) -> (r: bool)
        ensures
            r == self.wf(),
    {
        self.net_fee <= MAX_FEE && self.spot_fee <= 1000 && self.energy_tax <= MAX_FEE
            && self.variable_fee <= MAX_FEE && self.extra_fee <= MAX_FEE && self.vat < 1000
            && self.sell_extra <= MAX_FEE
    }

    /// Adds value added tax and the other markups to a spot price. Gives
    /// the spot price, one price for buying and one for selling, each
    /// rounded to two decimals.
    pub fn add_vat_markup(&self, tariff: i64, delivery_start: u64) -> (r: TariffValues)
        requires
            self.wf(),
            -MAX_SPOT <= tariff <= MAX_SPOT,
        ensures
            r == self.tariff_of(tariff, delivery_start),
    {
        let p: i128 = tariff as i128;
        let fee: i128 = self.spot_fee as i128;
        assert(-1_000_000_000_000 <= fee * p <= 1_000_000_000_000) by (nonlinear_arith)
            requires
                0 <= fee <= 1000,
                -1_000_000_000 <= p <= 1_000_000_000,
        ;
        let taxed: i128 = fee * p + 1000 * (p + self.variable_fee as i128 + self.extra_fee as i128);
        let keep: i128 = 1000 - self.vat as i128;
        let with_vat = round_div(taxed, keep);
        let buy: i128 = self.net_fee as i128 + self.energy_tax as i128 + with_vat;
        let sell: i128 = p + self.sell_extra as i128;
        TariffValues {
            valid_time: truncate_to_hour(delivery_start),
            price: round_to_two_decimals(p),
            buy: round_to_two_decimals(buy),
            sell: round_to_two_decimals(sell),
        }
    }

    /// Turns the market's answer for a day into tariffs, hour by hour. The
    /// answer has to hold the prices of 24 hours, each within the limits.
    pub fn tariffs_to_vec(&self, tariffs: &Tariffs) -> (r: Result<Vec<TariffValues>, NordPoolError>)
        requires
            self.wf(),
        ensures
            match r {
                Ok(v) => {
                    &&& tariffs.multi_area_entries@.len() == DAY_PRICES
                    &&& v@.len() == DAY_PRICES
                    &&& forall|i: int|
                        0 <= i < DAY_PRICES ==> -MAX_SPOT <= (
                        #[trigger] tariffs.multi_area_entries@[i]).entry_per_area.se4 <= MAX_SPOT
                            && v@[i] == self.tariff_of(
                            tariffs.multi_area_entries@[i].entry_per_area.se4,
                            tariffs.multi_area_entries@[i].delivery_start,
                        )
                },
                Err(NordPoolError::Document(e)) => if tariffs.multi_area_entries@.len()
                    != DAY_PRICES {
                    e@ == "number of day tariffs not equal to 24"@
                } else {
                    &&& e@ == "spot price outside limits"@
                    &&& exists|i: int|
                        0 <= i < DAY_PRICES && !(-MAX_SPOT <= (
                        #[trigger] tariffs.multi_area_entries@[i]).entry_per_area.se4 <= MAX_SPOT)
                },
                Err(NordPoolError::NoContent) => false,
            },
    {
        if tariffs.multi_area_entries.len() != DAY_PRICES {
            return Err(
                NordPoolError::Document(String::from_str("number of day tariffs not equal to 24")),
            );
        }
        let mut result: Vec<TariffValues> = Vec::new();
        let mut i: usize = 0;
        while i < DAY_PRICES
            invariant
                self.wf(),
                tariffs.multi_area_entries@.len() == DAY_PRICES,
                i <= DAY_PRICES,
                result@.len() == i,
                forall|j: int|
                    0 <= j < i ==> -MAX_SPOT <= (
                    #[trigger] tariffs.multi_area_entries@[j]).entry_per_area.se4 <= MAX_SPOT
                        && result@[j] == self.tariff_of(
                        tariffs.multi_area_entries@[j].entry_per_area.se4,
                        tariffs.multi_area_entries@[j].delivery_start,
                    ),
            decreases DAY_PRICES - i,
        {
            let t = tariffs.multi_area_entries[i];
            if t.entry_per_area.se4 < -MAX_SPOT || t.entry_per_area.se4 > MAX_SPOT {
                return Err(NordPoolError::Document(String::from_str("spot price outside limits")));
            }
            result.push(self.add_vat_markup(t.entry_per_area.se4, t.delivery_start));
            i += 1;
        }
        Ok(result)
    }
}

/// Divides and rounds to the nearest whole number, halves away from zero.
pub fn round_div(a: i128, b: i128) -> (r: i128)
    requires
        1 <= b <= 1_000_000,
        -1_000_000_000_000_000_000 <= a <= 1_000_000_000_000_000_000,
    ensures
        r == rounded_div(a as int, b as int),
        -1_000_000_000_000_000_001 <= r <= 1_000_000_000_000_000_001,
{
    if a >= 0 {
        assert((2 * a + b) / (2 * b) <= a + 1 && (2 * a + b) / (2 * b) >= 0) by (nonlinear_arith)
            requires
                a >= 0,
                b >= 1,
        ;
        (2 * a + b) / (2 * b)
    } else {
        assert((2 * (-a) + b) / (2 * b) <= (-a) + 1 && (2 * (-a) + b) / (2 * b) >= 0)
            by (nonlinear_arith)
            requires
                -a >= 0,
                b >= 1,
        ;
        -((2 * (-a) + b) / (2 * b))
    }
}

/// Rounds a price to two decimals of the currency unit.
pub fn round_to_two_decimals(price: i128) -> (r: i64)
    requires
        -1_000_000_000_000_000 <= price <= 1_000_000_000_000_000,
    ensures
        r == two_decimals(price as int),
{
    let cents = round_div(price, CENT as i128);
    assert(-100_000_000_001 <= cents <= 100_000_000_001) by (nonlinear_arith)
        requires
            cents == rounded_div(price as int, 10_000),
            -1_000_000_000_000_000 <= price <= 1_000_000_000_000_000,
    ;
    (cents * (CENT as i128)) as i64
}

/// Checks the status of the market's answer: 204 says that the market has
/// no prices for the day.
pub fn check_status(status: u16) -> (r: Result<(), NordPoolError>)
    ensures
        r.is_ok() == (status != 204),
        r is Err ==> r == Err::<(), NordPoolError>(NordPoolError::NoContent),
{
    if status == 204 {
        Err(NordPoolError::NoContent)
    } else {
        Ok(())
    }
}

} // verus!

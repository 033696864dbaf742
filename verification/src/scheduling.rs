//! The schedule as the optimizer makes it: from tariffs and estimates of
//! production and consumption to the blocks of the hours ahead.

use vstd::prelude::*;
use vstd::string::StringExecFns;
use crate::config::Charge;
use crate::consumption::{estimates_for as load_estimates_for, Consumption, ConsumptionValues};
use crate::errors::SchedulingError;
use crate::models::nordpool_tariffs::TariffValues;
use crate::models::smhi_forecast::ForecastValues;
use crate::optimizer::{
    adjust_for_offset, best_plan, block_consistent, blocks_of, blocks_tile, charge_cost_charge_end,
    charge_run, charged_tariff, grid_need, lemma_blocks_sound, lemma_charged_tariff_bounded,
    lemma_plan_spans_chained, level_of, plan_spans, seek_best, trim_and_tail, uses_worthwhile,
    Battery, Carry, Horizon, Plan, MAX_CARRY_TARIFF,
};
use crate::production::{
    estimates_for as production_estimates_for, is_hourly_peak, PVProduction, ProductionValues,
    SunDay,
};
use crate::scheduler::{
    first_covering, none_covering, position_by_time, Block, BlockType, Status, Tariffs,
};
use crate::time::{
    truncate_to_hour, truncate_to_unit, truncated, DAY_SECONDS, HOUR_SECONDS, MAX_TIME,
    UNIT_SECONDS,
};
use crate::units::{
    clamp_soc, clamped_soc, MAX_ENERGY, MAX_HOURS, MAX_LEVEL, MAX_SOC, MAX_TARIFF, MIN_SOC,
    PER_MILLE,
};

verus! {

/// Why a schedule could not be made from what was given.
#[derive(Clone, Copy, PartialEq, Eq, Structural, Debug)]
pub enum InputFault {
    /// A parameter of the battery, the sell priority, the time or the
    /// carried charge is outside the limits.
    Parameters,
    /// No tariff is given for the hours ahead.
    NoTariffs,
    /// A tariff for the hours ahead is outside the limits.
    TariffRange,
    /// An estimate for the hours ahead is outside the limits.
    EnergyRange,
}

/// The message of a fault.
pub open spec fn fault_text(f: InputFault) -> Seq<char> {
    match f {
        InputFault::Parameters => "parameters outside limits"@,
        InputFault::NoTariffs => "no tariffs for the hours ahead"@,
        InputFault::TariffRange => "tariff outside limits"@,
        InputFault::EnergyRange => "estimate outside limits"@,
    }
}

/// The error that reports a fault.
pub fn fault_error(f: InputFault) -> (e: SchedulingError)
    ensures
        e.0@ == fault_text(f),
{
    let text = match f {
        InputFault::Parameters => "parameters outside limits",
        InputFault::NoTariffs => "no tariffs for the hours ahead",
        InputFault::TariffRange => "tariff outside limits",
        InputFault::EnergyRange => "estimate outside limits",
    };
    SchedulingError(String::from_str(text))
}

/// The sell tariff weighted by the sell priority, rounded towards zero.
pub open spec fn weighted_sell(sell: int, priority: int) -> int {
    if sell >= 0 {
        (sell * priority) / 1000
    } else {
        -(((-sell) * priority) / 1000)
    }
}

/// The tariffs among the first `n` of `ts` that are valid from `from` up to `to`.
pub open spec fn tariffs_in_scope(ts: Seq<TariffValues>, from: int, to: int, n: int) -> Seq<
    TariffValues,
>
    decreases n,
{
    if n <= 0 {
        Seq::empty()
    } else if from <= ts[n - 1].valid_time < to {
        tariffs_in_scope(ts, from, to, n - 1).push(ts[n - 1])
    } else {
        tariffs_in_scope(ts, from, to, n - 1)
    }
}

/// The production estimates among the first `n` of `ps` that are valid from
/// `from` up to `to`, in Wh.
pub open spec fn production_in_scope(ps: Seq<ProductionValues>, from: int, to: int, n: int) -> Seq<
    u64,
>
    decreases n,
{
    if n <= 0 {
        Seq::empty()
    } else if from <= ps[n - 1].valid_time < to {
        production_in_scope(ps, from, to, n - 1).push(ps[n - 1].power)
    } else {
        production_in_scope(ps, from, to, n - 1)
    }
}

/// The consumption estimates among the first `n` of `cs` that are valid
/// from `from` up to `to`, in Wh.
pub open spec fn consumption_in_scope(cs: Seq<ConsumptionValues>, from: int, to: int, n: int) -> Seq<
    u64,
>
    decreases n,
{
    if n <= 0 {
        Seq::empty()
    } else if from <= cs[n - 1].valid_time < to {
        consumption_in_scope(cs, from, to, n - 1).push(cs[n - 1].power)
    } else {
        consumption_in_scope(cs, from, to, n - 1)
    }
}

/// Picks the tariffs that are valid from `from` up to `to`.
pub fn select_tariffs(tariffs: &Vec<TariffValues>, from: u64, to: u64) -> (r: Vec<TariffValues>)
    ensures
        r@ == tariffs_in_scope(tariffs@, from as int, to as int, tariffs.len() as int),
{
    let mut r: Vec<TariffValues> = Vec::new();
    let n = tariffs.len();
    let mut i: usize = 0;
    while i < n
        invariant
            n == tariffs.len(),
            i <= n,
            r@ == tariffs_in_scope(tariffs@, from as int, to as int, i as int),
        decreases n - i,
    {
        let t = tariffs[i];
        if from <= t.valid_time && t.valid_time < to {
            r.push(t);
        }
        i += 1;
    }
    r
}

/// Picks the production estimates that are valid from `from` up to `to`.
pub fn select_production(production: &Vec<ProductionValues>, from: u64, to: u64) -> (r: Vec<u64>)
    ensures
        r@ == production_in_scope(production@, from as int, to as int, production.len() as int),
{
    let mut r: Vec<u64> = Vec::new();
    let n = production.len();
    let mut i: usize = 0;
    while i < n
        invariant
            n == production.len(),
            i <= n,
            r@ == production_in_scope(production@, from as int, to as int, i as int),
        decreases n - i,
    {
        let p = production[i];
        if from <= p.valid_time && p.valid_time < to {
            r.push(p.power);
        }
        i += 1;
    }
    r
}

/// Picks the consumption estimates that are valid from `from` up to `to`.
pub fn select_consumption(consumption: &Vec<ConsumptionValues>, from: u64, to: u64) -> (r: Vec<
    u64,
>)
    ensures
        r@ == consumption_in_scope(
            consumption@,
            from as int,
            to as int,
            consumption.len() as int,
        ),
{
    let mut r: Vec<u64> = Vec::new();
    let n = consumption.len();
    let mut i: usize = 0;
    while i < n
        invariant
            n == consumption.len(),
            i <= n,
            r@ == consumption_in_scope(consumption@, from as int, to as int, i as int),
        decreases n - i,
    {
        let c = consumption[i];
        if from <= c.valid_time && c.valid_time < to {
            r.push(c.power);
        }
        i += 1;
    }
    r
}

/// Number of hours that a plan is made for, given the tariffs in scope.
pub open spec fn horizon_hours(scoped: Seq<TariffValues>) -> int {
    if scoped.len() > MAX_HOURS {
        MAX_HOURS as int
    } else {
        scoped.len() as int
    }
}

/// The first tariffs in scope, as many as a plan has hours, are within the limits.
pub open spec fn tariffs_in_range(scoped: Seq<TariffValues>) -> bool {
    forall|i: int|
        0 <= i < horizon_hours(scoped) ==> -(MAX_TARIFF as int) <= (#[trigger] scoped[i]).buy
            <= MAX_TARIFF && -(MAX_TARIFF as int) <= scoped[i].sell <= MAX_TARIFF
}

/// The buy tariff that a plan is made with. The plan reckons with costs
/// that are not below nothing: in an hour in which the grid pays for what
/// is drawn from it, its energy is planned as free, and what it pays is
/// left out of the plan's value.
pub open spec fn planned_buy(buy: int) -> int {
    if buy < 0 {
        0
    } else {
        buy
    }
}

/// The first `n` estimates, where there are as many, are within the limits.
pub open spec fn energy_in_range(values: Seq<u64>, n: int) -> bool {
    forall|i: int| 0 <= i < n && i < values.len() ==> (#[trigger] values[i]) <= MAX_ENERGY
}

/// The estimate for hour `i`: nothing where none is given.
pub open spec fn energy_at(values: Seq<u64>, i: int) -> int {
    if 0 <= i < values.len() {
        values[i] as int
    } else {
        0
    }
}

/// `t` holds the first tariffs in scope, as many as a plan has hours, with
/// the buy tariff as it is planned with and the sell tariff weighted by the
/// priority, and nothing after them.
pub open spec fn tariffs_filled(t: Tariffs, scoped: Seq<TariffValues>, start: u64, priority: u64) -> bool {
    &&& t.length == horizon_hours(scoped)
    &&& t.start_time == start
    &&& forall|i: int|
        0 <= i < MAX_HOURS ==> (#[trigger] t.buy[i]) == (if i < t.length {
            planned_buy(scoped[i].buy as int)
        } else {
            0
        })
    &&& forall|i: int|
        0 <= i < MAX_HOURS ==> (#[trigger] t.sell[i]) == (if i < t.length {
            weighted_sell(scoped[i].sell as int, priority as int)
        } else {
            0
        })
}

/// `net` holds production minus consumption for each hour of the plan, and
/// nothing after them.
pub open spec fn net_filled(net: [i64; 24], hours: int, prod: Seq<u64>, cons: Seq<u64>) -> bool {
    forall|i: int|
        0 <= i < MAX_HOURS ==> (#[trigger] net[i]) == (if i < hours {
            energy_at(prod, i) - energy_at(cons, i)
        } else {
            0
        })
}

/// The level that the usable energy `charge_in` stands for, and the mean
/// cost of it: energy that does not make up a level costs nothing.
pub open spec fn carry_of(b: Battery, charge_in: int, charge_tariff_in: u64) -> Carry {
    let level = level_of(charge_in, b.soc_wh as int);
    Carry {
        level: level as u8,
        tariff: if level == 0 {
            0
        } else {
            charge_tariff_in
        },
    }
}

/// Prepares the tariffs in scope for the optimizer: the first of them, as
/// many as a plan has hours, with the sell tariff weighted by the sell
/// priority, and a buy tariff below nothing taken as nothing. There is no
/// result where one of them is outside the limits.
pub fn transform_tariffs(scoped: &Vec<TariffValues>, start: u64, sell_priority: u64) -> (r: Option<
    Tariffs,
>)
    requires
        sell_priority <= PER_MILLE,
        start <= MAX_TIME,
    ensures
        r.is_some() == tariffs_in_range(scoped@),
        r matches Some(t) ==> tariffs_filled(t, scoped@, start, sell_priority) && t.wf(),
{
    let hours: usize = if scoped.len() > MAX_HOURS {
        MAX_HOURS
    } else {
        scoped.len()
    };
    let priority: i64 = sell_priority as i64;
    let mut buy: [u64; 24] = [0u64;24];
    let mut sell: [i64; 24] = [0i64;24];
    let mut k: usize = 0;
    while k < hours
        invariant
            hours == horizon_hours(scoped@),
            hours <= MAX_HOURS,
            k <= hours,
            priority == sell_priority,
            0 <= priority <= 1000,
            forall|j: int|
                0 <= j < k ==> -(MAX_TARIFF as int) <= (#[trigger] scoped@[j]).buy <= MAX_TARIFF
                    && -(MAX_TARIFF as int) <= scoped@[j].sell <= MAX_TARIFF,
            forall|j: int|
                0 <= j < MAX_HOURS ==> (#[trigger] buy[j]) == (if j < k {
                    planned_buy(scoped@[j].buy as int)
                } else {
                    0
                }),
            forall|j: int|
                0 <= j < MAX_HOURS ==> (#[trigger] sell[j]) == (if j < k {
                    weighted_sell(scoped@[j].sell as int, priority as int)
                } else {
                    0
                }),
            forall|j: int| 0 <= j < k ==> -(MAX_TARIFF as int) <= (#[trigger] sell[j]) <= MAX_TARIFF,
        decreases hours - k,
    {
        let t = scoped[k];
        if t.buy < -(MAX_TARIFF as i64) || t.buy > MAX_TARIFF as i64 || t.sell < -(MAX_TARIFF as i64)
            || t.sell
            > MAX_TARIFF as i64 {
            assert(!tariffs_in_range(scoped@));
            return None;
        }
        let weighted: i64 = if t.sell >= 0 {
            assert(0 <= t.sell * priority <= 100_000_000 * 1000 && (t.sell * priority) / 1000
                <= t.sell) by (nonlinear_arith)
                requires
                    0 <= t.sell <= 100_000_000,
                    0 <= priority <= 1000,
            ;
            (t.sell * priority) / 1000
        } else {
            assert(0 <= (-t.sell) * priority <= 100_000_000 * 1000 && ((-t.sell) * priority) / 1000
                <= -t.sell) by (nonlinear_arith)
                requires
                    0 <= -t.sell <= 100_000_000,
                    0 <= priority <= 1000,
            ;
            -(((-t.sell) * priority) / 1000)
        };
        buy[k] = if t.buy < 0 {
            0
        } else {
            t.buy as u64
        };
        sell[k] = weighted;
        k += 1;
    }
    let t = Tariffs { buy, sell, length: hours, start_time: start };
    proof {
        assert forall|j: int| 0 <= j < t.length implies (#[trigger] t.buy[j]) <= MAX_TARIFF by {
            assert(-(MAX_TARIFF as int) <= scoped@[j].buy <= MAX_TARIFF);
        }
    }
    Some(t)
}

/// Production minus consumption for each of the first `hours` hours, in Wh;
/// an hour without an estimate counts as nothing. There is no result where
/// an estimate for one of these hours is outside the limits.
pub fn net_production(prod: &Vec<u64>, cons: &Vec<u64>, hours: usize) -> (r: Option<[i64; 24]>)
    requires
        hours <= MAX_HOURS,
    ensures
        r.is_some() == (energy_in_range(prod@, hours as int) && energy_in_range(
            cons@,
            hours as int,
        )),
        r matches Some(net) ==> net_filled(net, hours as int, prod@, cons@) && forall|j: int|
            0 <= j < hours ==> -(MAX_ENERGY as int) <= (#[trigger] net[j]) <= MAX_ENERGY,
{
    let mut net: [i64; 24] = [0i64;24];
    let mut k: usize = 0;
    while k < hours
        invariant
            hours <= MAX_HOURS,
            k <= hours,
            energy_in_range(prod@, k as int),
            energy_in_range(cons@, k as int),
            forall|j: int|
                0 <= j < MAX_HOURS ==> (#[trigger] net[j]) == (if j < k {
                    energy_at(prod@, j) - energy_at(cons@, j)
                } else {
                    0
                }),
            forall|j: int| 0 <= j < k ==> -(MAX_ENERGY as int) <= (#[trigger] net[j]) <= MAX_ENERGY,
        decreases hours - k,
    {
        let p: u64 = if k < prod.len() {
            prod[k]
        } else {
            0
        };
        let c: u64 = if k < cons.len() {
            cons[k]
        } else {
            0
        };
        if p > MAX_ENERGY || c > MAX_ENERGY {
            assert(!energy_in_range(prod@, hours as int) || !energy_in_range(cons@, hours as int));
            return None;
        }
        net[k] = p as i64 - c as i64;
        k += 1;
    }
    Some(net)
}

/// What the battery holds at the start of a plan, as a level and its cost.
pub fn carry_from(battery: &Battery, charge_in: u64, charge_tariff_in: u64) -> (c: Carry)
    requires
        battery.wf(),
        charge_in <= MAX_ENERGY,
        charge_tariff_in <= MAX_CARRY_TARIFF,
    ensures
        c == carry_of(*battery, charge_in as int, charge_tariff_in),
        c.wf(),
{
    let w: u64 = battery.soc_wh;
    assert((2 * charge_in + w) / (2 * w) >= 0) by (nonlinear_arith)
        requires
            w >= 1,
    ;
    let l: u64 = (2 * charge_in + w) / (2 * w);
    let level: u8 = if l > 90 {
        MAX_LEVEL
    } else {
        l as u8
    };
    Carry {
        level,
        tariff: if level == 0 {
            0
        } else {
            charge_tariff_in
        },
    }
}

impl Block {
    /// Whole hours from the start of the block to the hour of `date_time`;
    /// negative where the block starts later.
    pub open spec fn age(&self, date_time: u64) -> int {
        let hour = truncated(date_time as int, HOUR_SECONDS as int);
        if hour >= self.start_time {
            (hour - self.start_time) / (HOUR_SECONDS as int)
        } else {
            -((self.start_time - hour) / (HOUR_SECONDS as int))
        }
    }

    /// Returns the age of the block in whole hours at `date_time`.
    pub fn get_age(&self, date_time: u64) -> (r: i64)
        ensures
            r == self.age(date_time),
    {
        let hour = truncate_to_hour(date_time);
        if hour >= self.start_time {
            ((hour - self.start_time) / HOUR_SECONDS) as i64
        } else {
            -(((self.start_time - hour) / HOUR_SECONDS) as i64)
        }
    }

    /// Returns true if the block is in force at `date_time`.
    pub fn is_active(&self, date_time: u64) -> (r: bool)
        ensures
            r == self.covers(truncated(date_time as int, UNIT_SECONDS as int)),
    {
        self.is_covering(truncate_to_unit(date_time))
    }

    /// Returns true if the block is a charge block that was started and has
    /// not been stopped since.
    pub fn is_charge(&self) -> (r: bool)
        ensures
            r == (self.block_type == BlockType::Charge && self.status == Status::Started),
    {
        self.block_type == BlockType::Charge && self.status == Status::Started
    }
}

/// The hour of the tariffs `t` that holds `time`, counted from their first hour.
pub open spec fn tariff_hour(t: Tariffs, time: u64) -> int {
    (time - t.start_time) / (HOUR_SECONDS as int)
}

/// The tariffs `t` cut after the hour that holds `when`.
pub open spec fn tariffs_until(t: Tariffs, when: u64) -> Tariffs {
    let hours = tariff_hour(t, when) + 1;
    if when < t.start_time {
        Tariffs { length: 0, ..t }
    } else if hours < t.length {
        Tariffs { length: hours as usize, ..t }
    } else {
        t
    }
}

/// Whether the charging that a block did can be priced: it is a block that
/// entered within the range of the state of charge, left above where it
/// entered, and has sound tariffs that begin no later than itself.
pub open spec fn priceable(b: Block, soc: int) -> bool {
    &&& MIN_SOC <= b.soc_in < soc <= MAX_SOC
    &&& b.charge_tariff_in <= MAX_CARRY_TARIFF
    &&& b.tariffs matches Some(t) && t.wf() && t.start_time <= b.start_time && tariff_hour(
        t,
        b.start_time,
    ) <= t.length
}

/// Mean cost of the stored energy of a charge block that reached the state
/// of charge `soc` at `when`: the weighted mean of what it entered with and
/// what was bought since, priced hour by hour from its start up to the hour
/// of `when`. Where the charging cannot be priced the cost stays as it was.
pub open spec fn full_tariff(battery: Battery, b: Block, soc: int, when: u64) -> int {
    if priceable(b, soc) {
        let t = tariffs_until(b.tariffs.unwrap(), when);
        let need = grid_need(battery, b.soc_in - MIN_SOC, soc - MIN_SOC);
        let run = charge_run(
            t,
            battery.charge_wh_hour as int,
            tariff_hour(t, b.start_time),
            need,
        );
        charged_tariff(
            battery,
            Carry { level: (b.soc_in - MIN_SOC) as u8, tariff: b.charge_tariff_in },
            soc - MIN_SOC,
            run.cost,
        )
    } else {
        b.charge_tariff_in as int
    }
}

/// The block as it is after `status` was recorded for it. A charge block
/// that is reported full leaves at the state of charge that was reached,
/// with the usable energy that it stands for and the mean cost of it.
pub open spec fn block_updated(battery: Battery, b: Block, status: Status) -> Block {
    match status {
        Status::Full(reached, when) if b.block_type == BlockType::Charge => {
            let soc = clamped_soc(reached as int);
            Block {
                status,
                soc_out: soc as u8,
                charge_out: ((soc - MIN_SOC) * battery.soc_wh) as u64,
                charge_tariff_out: full_tariff(battery, b, soc, when) as u64,
                ..b
            }
        },
        _ => Block { status, ..b },
    }
}

/// A charge block that is reported full leaves within the range of the
/// state of charge, with the usable energy that its state of charge stands
/// for.
pub proof fn law_full_block_consistent(battery: Battery, b: Block, reached: u8, when: u64)
    requires
        battery.wf(),
        b.block_type == BlockType::Charge,
    ensures
        ({
            let done = block_updated(battery, b, Status::Full(reached, when));
            &&& MIN_SOC <= done.soc_out <= MAX_SOC
            &&& done.charge_out == (done.soc_out - MIN_SOC) * battery.soc_wh
            &&& done.status == Status::Full(reached, when)
        }),
{
    let soc = clamped_soc(reached as int);
    assert(0 <= (soc - MIN_SOC) * battery.soc_wh <= 90 * 1_000_000) by (nonlinear_arith)
        requires
            0 <= soc - MIN_SOC <= 90,
            1 <= battery.soc_wh <= 1_000_000,
    ;
}

/// What making a schedule from the inputs `i` comes to: where the inputs
/// are at fault, the error that tells of the first fault, and the schedule
/// as it was; else the horizon that the inputs describe, a best plan for
/// it, and the schedule with the blocks of that plan, stamped with the time.
/// The blocks are consistent, they tile the hours of the plan, the first
/// enters at the state of charge that is carried in, and every use block of
/// a plan that the search found is worth scheduling.
pub open spec fn scheduling_done(
    before: Schedule,
    i: Inputs,
    r: Result<(Horizon, Plan), SchedulingError>,
    after: Schedule,
) -> bool {
    let carry = carry_of(before.battery, i.charge_in as int, i.charge_tariff_in);
    match r {
        Err(e) => {
            &&& before.input_fault(i) matches Some(f) && e.0@ == fault_text(f)
            &&& after == before
        },
        Ok((h, p)) => {
            &&& before.input_fault(i) is None
            &&& h.wf()
            &&& before.horizon_filled(i, h)
            &&& best_plan(h, carry, p)
            &&& after.blocks@ == blocks_of(h, plan_spans(h, carry, p))
            &&& after.tariffs == h.tariffs
            &&& after.date_time == i.date_time
            &&& after.battery == before.battery
            &&& after.sell_priority == before.sell_priority
            &&& forall|k: int|
                0 <= k < after.blocks@.len() ==> block_consistent(#[trigger] after.blocks@[k])
            &&& blocks_tile(after.blocks@, i.start(), i.start() + i.hours() * HOUR_SECONDS)
            &&& after.blocks@[0].soc_in == 10 + carry.level
            &&& p.first.is_some() ==> uses_worthwhile(h, plan_spans(h, carry, p))
        },
    }
}

/// Struct representing the block schedule from the current hour on.
pub struct Schedule {
    /// When the schedule was made.
    pub date_time: u64,
    pub blocks: Vec<Block>,
    /// The tariffs that the schedule was made with.
    pub tariffs: Tariffs,
    pub battery: Battery,
    /// Weight of the sell tariff against the buy tariff, in thousandths.
    pub sell_priority: u64,
}

/// What a schedule is made from.
pub struct Inputs {
    pub tariffs: Seq<TariffValues>,
    pub production: Seq<ProductionValues>,
    pub consumption: Seq<ConsumptionValues>,
    pub charge_in: u64,
    pub charge_tariff_in: u64,
    pub date_time: u64,
}

impl Inputs {
    /// Start of the hour that the schedule begins with.
    pub open spec fn start(&self) -> int {
        truncated(self.date_time as int, HOUR_SECONDS as int)
    }

    /// The tariffs of the day ahead.
    pub open spec fn scoped(&self) -> Seq<TariffValues> {
        tariffs_in_scope(
            self.tariffs,
            self.start(),
            self.start() + DAY_SECONDS,
            self.tariffs.len() as int,
        )
    }

    /// Number of hours of the plan.
    pub open spec fn hours(&self) -> int {
        horizon_hours(self.scoped())
    }

    /// The production estimates for the hours of the plan.
    pub open spec fn scoped_production(&self) -> Seq<u64> {
        production_in_scope(
            self.production,
            self.start(),
            self.start() + self.hours() * HOUR_SECONDS,
            self.production.len() as int,
        )
    }

    /// The consumption estimates for the hours of the plan.
    pub open spec fn scoped_consumption(&self) -> Seq<u64> {
        consumption_in_scope(
            self.consumption,
            self.start(),
            self.start() + self.hours() * HOUR_SECONDS,
            self.consumption.len() as int,
        )
    }
}

impl Schedule {
    /// The first fault of the inputs, if any.
    pub open spec fn input_fault(&self, i: Inputs) -> Option<InputFault> {
        if !self.battery.wf() || self.sell_priority > PER_MILLE || i.date_time > MAX_TIME
            || i.charge_in > MAX_ENERGY || i.charge_tariff_in > MAX_CARRY_TARIFF {
            Some(InputFault::Parameters)
        } else if i.scoped().len() == 0 {
            Some(InputFault::NoTariffs)
        } else if !tariffs_in_range(i.scoped()) {
            Some(InputFault::TariffRange)
        } else if !energy_in_range(i.scoped_production(), i.hours()) || !energy_in_range(
            i.scoped_consumption(),
            i.hours(),
        ) {
            Some(InputFault::EnergyRange)
        } else {
            None
        }
    }

    /// `h` is the horizon that the inputs describe.
    pub open spec fn horizon_filled(&self, i: Inputs, h: Horizon) -> bool {
        &&& h.battery == self.battery
        &&& tariffs_filled(h.tariffs, i.scoped(), i.start() as u64, self.sell_priority)
        &&& net_filled(h.net_prod, i.hours(), i.scoped_production(), i.scoped_consumption())
    }

    /// Updates the schedule from tariffs and from estimates of production
    /// and consumption, for the day that begins with the hour of
    /// `date_time`. The battery is taken to hold the usable energy
    /// `charge_in`, in Wh, at the mean cost `charge_tariff_in`. Returns what
    /// the plan was made from, and the plan; the schedule then holds the
    /// blocks of that plan. Where the inputs are at fault the schedule is
    /// left as it is.
    pub fn update_scheduling(
        &mut self,
        tariffs: &Vec<TariffValues>,
        production: &Vec<ProductionValues>,
        consumption: &Vec<ConsumptionValues>,
        charge_in: u64,
        charge_tariff_in: u64,
        date_time: u64,
    ) -> (r: Result<(Horizon, Plan), SchedulingError>)
        ensures
            scheduling_done(
                *old(self),
                Inputs {
                    tariffs: tariffs@,
                    production: production@,
                    consumption: consumption@,
                    charge_in,
                    charge_tariff_in,
                    date_time,
                },
                r,
                *final(self),
            ),
    {
        if !self.battery.is_valid() || self.sell_priority > PER_MILLE || date_time > MAX_TIME
            || charge_in > MAX_ENERGY || charge_tariff_in > MAX_CARRY_TARIFF {
            return Err(fault_error(InputFault::Parameters));
        }
        let start = truncate_to_hour(date_time);
        let scoped = select_tariffs(tariffs, start, start + DAY_SECONDS);
        if scoped.len() == 0 {
            return Err(fault_error(InputFault::NoTariffs));
        }
        let filled = match transform_tariffs(&scoped, start, self.sell_priority) {
            Some(t) => t,
            None => {
                return Err(fault_error(InputFault::TariffRange));
            },
        };
        let window: u64 = (filled.length as u64) * HOUR_SECONDS;
        let prod = select_production(production, start, start + window);
        let cons = select_consumption(consumption, start, start + window);
        let net = match net_production(&prod, &cons, filled.length) {
            Some(n) => n,
            None => {
                return Err(fault_error(InputFault::EnergyRange));
            },
        };
        let carry = carry_from(&self.battery, charge_in, charge_tariff_in);
        let h = Horizon { battery: self.battery, tariffs: filled, net_prod: net };
        let plan = seek_best(&h, carry);
        let spans = trim_and_tail(&h, carry, &plan);
        proof {
            lemma_plan_spans_chained(h, carry, plan);
            lemma_blocks_sound(h, spans@, carry.level as int, spans@.last().level_out as int);
        }
        let blocks = adjust_for_offset(&h, &spans);
        self.blocks = blocks;
        self.tariffs = h.tariffs;
        self.date_time = date_time;
        Ok((h, plan))
    }

    /// Records `status` for the first block that is in force at `date_time`.
    pub fn update_block_status(&mut self, date_time: u64, status: Status)
        ensures
            final(self).date_time == old(self).date_time,
            final(self).tariffs == old(self).tariffs,
            final(self).battery == old(self).battery,
            final(self).sell_priority == old(self).sell_priority,
            ({
                let t = truncated(date_time as int, UNIT_SECONDS as int);
                let blocks = old(self).blocks@;
                if none_covering(blocks, t) {
                    final(self).blocks@ == blocks
                } else {
                    exists|i: int|
                        first_covering(blocks, t, i) && final(self).blocks@ == blocks.update(
                            i,
                            Block { status, ..#[trigger] blocks[i] },
                        )
                }
            }),
    {
        let t = truncate_to_unit(date_time);
        match position_by_time(&self.blocks, t) {
            Some(i) => {
                let mut b = self.blocks[i];
                b.status = status;
                self.blocks.set(i, b);
            },
            None => {},
        }
    }

    /// Returns a copy of the first block that is in force at `date_time`.
    pub fn get_block(&self, date_time: u64) -> (r: Result<Block, SchedulingError>)
        ensures
            ({
                let t = truncated(date_time as int, UNIT_SECONDS as int);
                match r {
                    Ok(b) => exists|i: int|
                        first_covering(self.blocks@, t, i) && b == #[trigger] self.blocks@[i],
                    Err(e) => none_covering(self.blocks@, t) && e.0@
                        == "no block in schedule corresponding to the time"@,
                }
            }),
    {
        let t = truncate_to_unit(date_time);
        match position_by_time(&self.blocks, t) {
            Some(i) => Ok(self.blocks[i]),
            None => Err(
                SchedulingError(String::from_str("no block in schedule corresponding to the time")),
            ),
        }
    }

    /// Updates the given block with a new status. For a charge block that
    /// is reported full, the state of charge and the usable energy that it
    /// leaves with are set to what was reached, and the mean cost of the
    /// stored energy is worked out anew.
    pub fn update_block(&self, block: &mut Block, status: Status)
        requires
            self.battery.wf(),
        ensures
            *final(block) == block_updated(self.battery, *old(block), status),
    {
        if block.block_type == BlockType::Charge {
            if let Status::Full(reached, when) = status {
                let soc = clamp_soc(reached);
                let tariff_out = self.full_charge_tariff(block, soc, when);
                let level: u64 = (soc - MIN_SOC) as u64;
                assert(level * self.battery.soc_wh <= 90 * 1_000_000) by (nonlinear_arith)
                    requires
                        level <= 90,
                        self.battery.soc_wh <= 1_000_000,
                ;
                block.charge_tariff_out = tariff_out;
                block.soc_out = soc;
                block.charge_out = level * self.battery.soc_wh;
            }
        }
        block.status = status;
    }

    /// Works out the mean cost of the stored energy of a charge block that
    /// reached the state of charge `soc` at `when`.
    pub fn full_charge_tariff(&self, block: &Block, soc: u8, when: u64) -> (r: u64)
        requires
            self.battery.wf(),
            MIN_SOC <= soc <= MAX_SOC,
        ensures
            r == full_tariff(self.battery, *block, soc as int, when),
    {
        if block.soc_in < MIN_SOC || soc <= block.soc_in || block.charge_tariff_in
            > MAX_CARRY_TARIFF {
            return block.charge_tariff_in;
        }
        let t = match block.tariffs {
            Some(t) => t,
            None => {
                return block.charge_tariff_in;
            },
        };
        if !t.is_valid() || t.start_time > block.start_time {
            return block.charge_tariff_in;
        }
        let hour_wide: u64 = (block.start_time - t.start_time) / HOUR_SECONDS;
        if hour_wide > t.length as u64 {
            return block.charge_tariff_in;
        }
        let hour: usize = hour_wide as usize;
        let cut = if when < t.start_time {
            Tariffs { buy: t.buy, sell: t.sell, length: 0, start_time: t.start_time }
        } else {
            let upto: u64 = (when - t.start_time) / HOUR_SECONDS;
            if upto < t.length as u64 {
                Tariffs {
                    buy: t.buy,
                    sell: t.sell,
                    length: (upto + 1) as usize,
                    start_time: t.start_time,
                }
            } else {
                t
            }
        };
        assert(cut == tariffs_until(t, when));
        let b = &self.battery;
        let level_in: u8 = block.soc_in - MIN_SOC;
        let target: u8 = soc - MIN_SOC;
        let rise: u64 = (target - level_in) as u64;
        assert(rise * b.soc_wh * 1000 <= 90_000_000_000) by (nonlinear_arith)
            requires
                rise <= 90,
                b.soc_wh <= 1_000_000,
        ;
        assert(rise * b.soc_wh <= 90_000_000) by (nonlinear_arith)
            requires
                rise <= 90,
                b.soc_wh <= 1_000_000,
        ;
        let stored: u64 = rise * b.soc_wh * 1000;
        let need: u64 = (stored + b.charge_efficiency - 1) / b.charge_efficiency;
        assert(need <= stored) by (nonlinear_arith)
            requires
                need == (stored + b.charge_efficiency - 1) / (b.charge_efficiency as int),
                b.charge_efficiency >= 1,
                stored >= 0,
        ;
        if hour > cut.length {
            assert(charge_run(cut, b.charge_wh_hour as int, hour as int, need as int).cost == 0);
            return self.mean_after(block, target, 0);
        }
        let (cost, _, left) = charge_cost_charge_end(&cut, b.charge_wh_hour, hour, need);
        assert(cost <= stored * MAX_TARIFF) by (nonlinear_arith)
            requires
                cost <= (need - left) * MAX_TARIFF,
                left >= 0,
                need <= stored,
        ;
        self.mean_after(block, target, cost)
    }

    /// Weighted mean of the cost that a block entered with and the cost of
    /// what it bought to reach the level `target`.
    fn mean_after(&self, block: &Block, target: u8, cost: i64) -> (r: u64)
        requires
            self.battery.wf(),
            MIN_SOC <= block.soc_in,
            block.soc_in - MIN_SOC < target <= MAX_LEVEL,
            block.charge_tariff_in <= MAX_CARRY_TARIFF,
            0 <= cost <= (target - (block.soc_in - MIN_SOC)) * self.battery.soc_wh * 1000
                * MAX_TARIFF,
        ensures
            r == charged_tariff(
                self.battery,
                Carry { level: (block.soc_in - MIN_SOC) as u8, tariff: block.charge_tariff_in },
                target as int,
                cost as int,
            ),
    {
        let b = &self.battery;
        let level_in: u8 = block.soc_in - MIN_SOC;
        let c = Carry { level: level_in, tariff: block.charge_tariff_in };
        proof {
            lemma_charged_tariff_bounded(*b, c, target as int, cost as int);
        }
        assert((c.level as int) * (b.soc_wh as int) <= 90_000_000) by (nonlinear_arith)
            requires
                c.level <= 90,
                b.soc_wh <= 1_000_000,
        ;
        assert((c.level as int) * (b.soc_wh as int) * (c.tariff as int)
            <= 9_000_000_000_000_000_000) by (nonlinear_arith)
            requires
                c.level <= 90,
                b.soc_wh <= 1_000_000,
                c.tariff <= 100_000_000_000,
        ;
        let paid: u128 = (c.level as u128) * (b.soc_wh as u128) * (c.tariff as u128) + (cost as u128);
        let stored_after: u128 = (target as u128) * (b.soc_wh as u128);
        (paid / stored_after) as u64
    }

    /// Creates a new schedule without scheduling.
    pub fn new(config: &Charge) -> (s: Schedule)
        ensures
            s.date_time == 0,
            s.blocks@ == Seq::<Block>::empty(),
            s.tariffs.length == 0,
            s.tariffs.start_time == 0,
            s.sell_priority == config.sell_priority,
            s.battery == (Battery {
                bat_wh: config.bat_wh,
                soc_wh: config.soc_wh,
                charge_wh_hour: config.charge_wh_hour,
                charge_efficiency: config.charge_efficiency,
                discharge_efficiency: config.discharge_efficiency,
                min_use_tariff: config.min_use_tariff,
            }),
    {
        Schedule {
            date_time: 0,
            blocks: Vec::new(),
            tariffs: Tariffs { buy: [0u64;24], sell: [0i64;24], length: 0, start_time: 0 },
            battery: Battery {
                bat_wh: config.bat_wh,
                soc_wh: config.soc_wh,
                charge_wh_hour: config.charge_wh_hour,
                charge_efficiency: config.charge_efficiency,
                discharge_efficiency: config.discharge_efficiency,
                min_use_tariff: config.min_use_tariff,
            },
            sell_priority: config.sell_priority,
        }
    }
}

/// Updates the schedule to the present time and circumstances: estimates
/// of production and consumption are made from the forecast, and the
/// schedule is made from them and from the tariffs. Where an estimator is
/// not set up soundly, nothing is changed and the error says so.
pub fn update_schedule(
    schedule: &mut Schedule,
    pv: &mut PVProduction,
    cons: &mut Consumption,
    forecast: &Vec<ForecastValues>,
    tariffs: &Vec<TariffValues>,
    sun_days: &Vec<SunDay>,
    summer: &SunDay,
    winter: &SunDay,
    charge_in: u64,
    charge_tariff_in: u64,
    date_time: u64,
) -> (r: Result<(Horizon, Plan), SchedulingError>)
    ensures
        final(pv).params == old(pv).params,
        final(cons).model() == old(cons).model(),
        if old(pv).params.wf() && summer.wf() && winter.wf() && old(cons).wf() {
            &&& exists|lo: i32, hi: i32|
                is_hourly_peak(*winter, lo as int) && is_hourly_peak(*summer, hi as int)
                    && #[trigger] production_estimates_for(
                    final(pv).params,
                    forecast@,
                    sun_days@,
                    lo,
                    hi,
                    final(pv).production@,
                )
            &&& load_estimates_for(old(cons).model(), forecast@, final(cons).consumption@)
            &&& scheduling_done(
                *old(schedule),
                Inputs {
                    tariffs: tariffs@,
                    production: final(pv).production@,
                    consumption: final(cons).consumption@,
                    charge_in,
                    charge_tariff_in,
                    date_time,
                },
                r,
                *final(schedule),
            )
        } else {
            &&& r matches Err(e) && e.0@ == "estimators outside limits"@
            &&& *final(schedule) == *old(schedule)
            &&& *final(pv) == *old(pv)
            &&& *final(cons) == *old(cons)
        },
{
    if !pv.params.is_valid() || !summer.is_valid() || !winter.is_valid() || !cons.is_valid() {
        return Err(SchedulingError(String::from_str("estimators outside limits")));
    }
    pv.new_estimates(forecast, sun_days, summer, winter);
    cons.new_estimates(forecast);
    schedule.update_scheduling(
        tariffs,
        &pv.production,
        &cons.consumption,
        charge_in,
        charge_tariff_in,
        date_time,
    )
}

} // verus!

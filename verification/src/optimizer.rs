//! The search for the best plan: the hours ahead are laid out as blocks of
//! charging from grid, holding and using the battery, every plan of up to
//! two charge and use pairs is tried, and the one worth most is kept.

use vstd::prelude::*;
use crate::scheduler::{Block, BlockType, Status, Tariffs};
use crate::time::{HOUR_SECONDS, UNIT_SECONDS};
use crate::units::{
    MAX_ENERGY, MAX_HOURS, MAX_LEVEL, MAX_SOC, MAX_SOC_WH, MAX_TARIFF, MIN_SOC, PER_MILLE,
};

verus! {

/// Largest mean cost of stored energy that a plan carries along: the largest
/// tariff at the worst efficiency.
pub const MAX_CARRY_TARIFF: u64 = 100_000_000_000;

/// Bound on the energy that overflows in one hour, in Wh.
pub const MAX_HOUR_OVERFLOW: i64 = 200_000_000;

/// Bound on the money that one hour moves, in billionths of a currency unit.
pub const MAX_HOUR_MONEY: i64 = 20_000_000_000_000_000;

/// What the optimizer knows of the battery.
#[derive(Clone, Copy, Debug)]
pub struct Battery {
    /// Usable capacity, in Wh.
    pub bat_wh: u64,
    /// Energy that one percent of state of charge stands for, in Wh.
    pub soc_wh: u64,
    /// Energy that can be drawn from the grid in one hour of charging, in Wh.
    pub charge_wh_hour: u64,
    /// Share of the energy drawn from the grid that ends up stored, in thousandths.
    pub charge_efficiency: u64,
    /// Share of the stored energy that reaches the house, in thousandths.
    pub discharge_efficiency: u64,
    /// Lowest mean buy tariff at which a use block is worth scheduling.
    pub min_use_tariff: u64,
}

impl Battery {
    /// The parameters are within the limits that the optimizer computes with.
    pub open spec fn wf(&self) -> bool {
        &&& self.bat_wh <= MAX_ENERGY
        &&& 1 <= self.soc_wh <= MAX_SOC_WH
        &&& 1 <= self.charge_wh_hour <= MAX_ENERGY
        &&& 1 <= self.charge_efficiency <= PER_MILLE
        &&& 1 <= self.discharge_efficiency <= PER_MILLE
        &&& self.min_use_tariff <= MAX_TARIFF
    }

    /// Checks the parameters against the limits.
    pub fn is_valid(&self) -> (r: bool)
        ensures
            r == self.wf(),
    {
        self.bat_wh <= MAX_ENERGY && 1 <= self.soc_wh && self.soc_wh <= MAX_SOC_WH && 1
            <= self.charge_wh_hour && self.charge_wh_hour <= MAX_ENERGY && 1
            <= self.charge_efficiency && self.charge_efficiency <= PER_MILLE && 1
            <= self.discharge_efficiency && self.discharge_efficiency <= PER_MILLE
            && self.min_use_tariff <= MAX_TARIFF
    }
}

/// Everything that a plan is computed from: the battery, the tariffs per
/// hour and the net production (production minus consumption) per hour, in Wh.
#[derive(Clone, Copy, Debug)]
pub struct Horizon {
    pub battery: Battery,
    pub tariffs: Tariffs,
    pub net_prod: [i64; 24],
}

impl Horizon {
    /// Number of hours that the horizon covers.
    pub open spec fn len(&self) -> int {
        self.tariffs.length as int
    }

    /// The inputs are within the limits that the optimizer computes with.
    pub open spec fn wf(&self) -> bool {
        &&& self.battery.wf()
        &&& self.tariffs.wf()
        &&& 1 <= self.tariffs.length
        &&& forall|i: int|
            0 <= i < self.tariffs.length ==> -(MAX_ENERGY as int) <= (#[trigger] self.net_prod[i])
                <= MAX_ENERGY
    }
}

impl Horizon {
    /// Checks the inputs against the limits.
    pub fn is_valid(&self) -> (r: bool)
        ensures
            r == self.wf(),
    {
        if !self.battery.is_valid() || !self.tariffs.is_valid() || self.tariffs.length < 1 {
            return false;
        }
        let mut i: usize = 0;
        while i < self.tariffs.length
            invariant
                self.tariffs.length <= MAX_HOURS,
                i <= self.tariffs.length,
                forall|j: int|
                    0 <= j < i ==> -(MAX_ENERGY as int) <= (#[trigger] self.net_prod[j])
                        <= MAX_ENERGY,
            decreases self.tariffs.length - i,
        {
            if self.net_prod[i] > MAX_ENERGY as i64 || self.net_prod[i] < -(MAX_ENERGY as i64) {
                return false;
            }
            i += 1;
        }
        true
    }
}

/// What one block hands to the next: the usable level of the battery, in
/// percent above the floor, and the mean cost of what it holds.
#[derive(Clone, Copy, Debug)]
pub struct Carry {
    pub level: u8,
    pub tariff: u64,
}

impl Carry {
    /// The level and the cost are within the limits.
    pub open spec fn wf(&self) -> bool {
        self.level <= MAX_LEVEL && self.tariff <= MAX_CARRY_TARIFF
    }

    /// Checks the level and the cost against the limits.
    pub fn is_valid(&self) -> (r: bool)
        ensures
            r == self.wf(),
    {
        self.level <= MAX_LEVEL && self.tariff <= MAX_CARRY_TARIFF
    }
}

/// A block of a plan, in hours counted from the start of the horizon.
#[derive(Clone, Copy, Debug)]
pub struct Span {
    pub kind: BlockType,
    /// First hour of the span.
    pub start: usize,
    /// Number of hours; a span of no hours stands for a block that is not needed.
    pub size: usize,
    pub level_in: u8,
    pub level_out: u8,
    pub tariff_in: u64,
    pub tariff_out: u64,
    pub price: i64,
    pub overflow: u64,
    pub overflow_price: i64,
}

impl Span {
    /// First hour after the span.
    pub open spec fn end(&self) -> int {
        self.start + self.size
    }

    /// What the span hands to the next.
    pub open spec fn out(&self) -> Carry {
        Carry { level: self.level_out, tariff: self.tariff_out }
    }

    /// What the span hands to the next.
    pub fn carry_out(&self) -> (c: Carry)
        ensures
            c == self.out(),
    {
        Carry { level: self.level_out, tariff: self.tariff_out }
    }
}

/// State of the battery while the hours of a block are played through.
pub struct Sim {
    /// Usable energy in the battery, in Wh.
    pub charge: int,
    /// Lowest usable energy seen so far.
    pub min_charge: int,
    /// Energy that did not fit in the battery.
    pub overflow: int,
    /// What that energy sells for.
    pub overflow_value: int,
}

/// Change of the stored energy in hour `i`, before the limits of the battery
/// apply: net production goes in as it is, net consumption is taken out with
/// the loss of discharging on top.
pub open spec fn battery_delta(h: Horizon, i: int) -> int {
    let np = h.net_prod[i] as int;
    if np >= 0 {
        np
    } else {
        -(((-np) * 1000) / (h.battery.discharge_efficiency as int))
    }
}

/// The state after hour `i`. The battery does not go below `floor` nor above
/// its capacity; what is above overflows and is sold at that hour's tariff.
pub open spec fn sim_step(h: Horizon, floor: int, s: Sim, i: int) -> Sim {
    let moved = s.charge + battery_delta(h, i);
    let raw = if moved < floor {
        floor
    } else {
        moved
    };
    let cap = h.battery.bat_wh as int;
    let kept = if raw > cap {
        cap
    } else {
        raw
    };
    let over = raw - kept;
    Sim {
        charge: kept,
        min_charge: if kept < s.min_charge {
            kept
        } else {
            s.min_charge
        },
        overflow: s.overflow + over,
        overflow_value: s.overflow_value + over * (h.tariffs.sell[i] as int),
    }
}

/// The state after the hours from `start` up to `end`, starting with the
/// usable energy `charge`.
pub open spec fn simulate(h: Horizon, floor: int, charge: int, start: int, end: int) -> Sim
    decreases end - start,
{
    if end <= start {
        Sim { charge, min_charge: charge, overflow: 0, overflow_value: 0 }
    } else {
        sim_step(h, floor, simulate(h, floor, charge, start, end - 1), end - 1)
    }
}

/// The level, in percent above the floor, nearest to the usable energy
/// `charge`; halves go up, and the level ends at [`MAX_LEVEL`].
pub open spec fn level_of(charge: int, soc_wh: int) -> int {
    let l = (2 * charge + soc_wh) / (2 * soc_wh);
    if l > MAX_LEVEL {
        MAX_LEVEL as int
    } else {
        l
    }
}

/// Mean cost of the stored energy after a block without charging from grid:
/// nothing where the battery is or was empty; diluted where the level rose,
/// since what the panels added is free; else unchanged.
pub open spec fn blended_tariff(carry: Carry, level_out: int, min_charge: int) -> int {
    if level_out == 0 || min_charge == 0 {
        0
    } else if level_out > carry.level {
        (carry.tariff * carry.level) / level_out
    } else {
        carry.tariff as int
    }
}

/// A hold or use block over the hours from `start` up to `end`, entered
/// with `carry`. A hold block keeps what the battery holds at entry. Its
/// price is left at zero.
pub open spec fn span_after(h: Horizon, kind: BlockType, start: int, end: int, carry: Carry) -> Span {
    let charge = carry.level * h.battery.soc_wh;
    let floor = if kind == BlockType::Hold {
        charge
    } else {
        0
    };
    let s = simulate(h, floor, charge, start, end);
    let level_out = level_of(s.charge, h.battery.soc_wh as int);
    Span {
        kind,
        start: start as usize,
        size: (end - start) as usize,
        level_in: carry.level,
        level_out: level_out as u8,
        tariff_in: carry.tariff,
        tariff_out: blended_tariff(carry, level_out, s.min_charge) as u64,
        price: 0,
        overflow: s.overflow as u64,
        overflow_price: s.overflow_value as i64,
    }
}

/// Bounds on the state after `n` hours.
pub open spec fn sim_bounded(h: Horizon, floor: int, charge: int, s: Sim, n: int) -> bool {
    &&& 0 <= s.charge <= MAX_ENERGY
    &&& 0 <= s.min_charge <= s.charge
    &&& s.min_charge <= charge
    &&& floor <= h.battery.bat_wh ==> floor <= s.charge
    &&& 0 <= s.overflow <= n * MAX_HOUR_OVERFLOW
    &&& -n * MAX_HOUR_MONEY <= s.overflow_value <= n * MAX_HOUR_MONEY
}

/// One more hour keeps the state within the bounds, with room for what the
/// hour may add.
proof fn lemma_sim_step_bounded(h: Horizon, floor: int, charge: int, s: Sim, i: int, n: int)
    requires
        h.wf(),
        0 <= i < h.len(),
        0 <= floor <= charge <= MAX_ENERGY,
        0 <= n,
        sim_bounded(h, floor, charge, s, n),
    ensures
        sim_bounded(h, floor, charge, sim_step(h, floor, s, i), n + 1),
{
    let np = h.net_prod[i] as int;
    let eff = h.battery.discharge_efficiency as int;
    let sell = h.tariffs.sell[i] as int;
    assert(-(MAX_ENERGY as int) <= np <= MAX_ENERGY);
    assert(-(MAX_TARIFF as int) <= sell <= MAX_TARIFF);
    if np < 0 {
        assert(((-np) * 1000) / eff >= 0) by (nonlinear_arith)
            requires
                -np >= 0,
                eff >= 1,
        ;
    }
    let t = sim_step(h, floor, s, i);
    let moved = s.charge + battery_delta(h, i);
    let raw = if moved < floor {
        floor
    } else {
        moved
    };
    let over = raw - t.charge;
    assert(0 <= over <= MAX_HOUR_OVERFLOW);
    assert(-MAX_HOUR_MONEY <= over * sell <= MAX_HOUR_MONEY) by (nonlinear_arith)
        requires
            0 <= over <= 200_000_000,
            -100_000_000 <= sell <= 100_000_000,
    ;
    assert((n + 1) * MAX_HOUR_OVERFLOW == n * MAX_HOUR_OVERFLOW + MAX_HOUR_OVERFLOW)
        by (nonlinear_arith);
    assert((n + 1) * MAX_HOUR_MONEY == n * MAX_HOUR_MONEY + MAX_HOUR_MONEY) by (nonlinear_arith);
    assert(-(n + 1) * MAX_HOUR_MONEY == -n * MAX_HOUR_MONEY - MAX_HOUR_MONEY)
        by (nonlinear_arith);
}

/// The simulated state stays within bounds that fit the machine's integers.
pub proof fn lemma_simulate_bounded(h: Horizon, floor: int, charge: int, start: int, end: int)
    requires
        h.wf(),
        0 <= start <= end <= h.len(),
        0 <= floor <= charge <= MAX_ENERGY,
    ensures
        sim_bounded(h, floor, charge, simulate(h, floor, charge, start, end), end - start),
    decreases end - start,
{
    if end > start {
        lemma_simulate_bounded(h, floor, charge, start, end - 1);
        lemma_sim_step_bounded(
            h,
            floor,
            charge,
            simulate(h, floor, charge, start, end - 1),
            end - 1,
            end - 1 - start,
        );
    }
}

/// What holds of every hold or use block that [`span_after`] describes.
pub open spec fn span_sound(s: Span) -> bool {
    &&& s.level_in <= MAX_LEVEL
    &&& s.level_out <= MAX_LEVEL
    &&& s.tariff_out <= s.tariff_in
    &&& s.level_out == 0 ==> s.tariff_out == 0
    &&& s.size <= MAX_HOURS
    &&& s.overflow <= s.size * MAX_HOUR_OVERFLOW
    &&& -(s.size * MAX_HOUR_MONEY) <= s.overflow_price <= s.size * MAX_HOUR_MONEY
}

/// The energy that a level stands for has that level.
proof fn lemma_level_of_exact(level: int, soc_wh: int)
    requires
        0 <= level <= MAX_LEVEL,
        1 <= soc_wh,
    ensures
        level_of(level * soc_wh, soc_wh) == level,
{
    let c = level * soc_wh;
    assert((2 * c + soc_wh) / (2 * soc_wh) == level) by (nonlinear_arith)
        requires
            c == level * soc_wh,
            soc_wh >= 1,
            level >= 0,
    ;
}

/// Diluting a cost never raises it.
proof fn lemma_blend_bounded(tariff: int, level_in: int, level_out: int)
    requires
        0 <= tariff,
        0 <= level_in < level_out,
    ensures
        0 <= (tariff * level_in) / level_out <= tariff,
{
    assert(0 <= (tariff * level_in) / level_out <= tariff) by (nonlinear_arith)
        requires
            0 <= tariff,
            0 <= level_in < level_out,
    ;
}

/// A block of no hours hands on the level it was entered with; every hold or
/// use block is [`span_sound`].
pub proof fn lemma_span_after_sound(h: Horizon, kind: BlockType, start: int, end: int, carry: Carry)
    requires
        h.wf(),
        0 <= start <= end <= h.len(),
        carry.wf(),
    ensures
        span_sound(span_after(h, kind, start, end, carry)),
        span_after(h, kind, start, end, carry).kind == kind,
        span_after(h, kind, start, end, carry).start == start,
        span_after(h, kind, start, end, carry).size == end - start,
        span_after(h, kind, start, end, carry).level_in == carry.level,
        span_after(h, kind, start, end, carry).tariff_in == carry.tariff,
        span_after(h, kind, start, end, carry).price == 0,
        start == end ==> span_after(h, kind, start, end, carry).level_out == carry.level,
{
    let soc_wh = h.battery.soc_wh as int;
    let charge = carry.level * soc_wh;
    assert(0 <= charge <= 90 * 1_000_000) by (nonlinear_arith)
        requires
            charge == carry.level * soc_wh,
            0 <= carry.level <= 90,
            1 <= soc_wh <= 1_000_000,
    ;
    let floor = if kind == BlockType::Hold {
        charge
    } else {
        0
    };
    lemma_simulate_bounded(h, floor, charge, start, end);
    let s = simulate(h, floor, charge, start, end);
    let level_out = level_of(s.charge, soc_wh);
    assert((2 * s.charge + soc_wh) / (2 * soc_wh) >= 0) by (nonlinear_arith)
        requires
            s.charge >= 0,
            soc_wh >= 1,
    ;
    if level_out > carry.level {
        lemma_blend_bounded(carry.tariff as int, carry.level as int, level_out);
    }
    if start == end {
        lemma_level_of_exact(carry.level as int, soc_wh);
    }
    let n = end - start;
    assert(n * MAX_HOUR_OVERFLOW <= 24 * MAX_HOUR_OVERFLOW) by (nonlinear_arith)
        requires
            0 <= n <= 24,
    ;
    assert(n * MAX_HOUR_MONEY <= 24 * MAX_HOUR_MONEY) by (nonlinear_arith)
        requires
            0 <= n <= 24,
    ;
}

/// Corrects for overflow: separates what does not fit in the battery from
/// what it holds.
pub fn correct_overflow(charge: i64, capacity: i64) -> (r: (i64, i64))
    requires
        0 <= capacity,
        0 <= charge,
    ensures
        r.0 == (if charge > capacity {
            capacity
        } else {
            charge
        }),
        r.1 == charge - r.0,
{
    if charge > capacity {
        (capacity, charge - capacity)
    } else {
        (charge, 0)
    }
}

/// Plays the hours of a hold or use block through: what the panels add
/// beyond the load charges the battery and lowers the mean cost of what it
/// holds, what does not fit overflows and is sold, and a load beyond what the
/// panels give is covered from the battery, unless the block holds it.
pub fn update_for_pv(h: &Horizon, block_type: BlockType, start: usize, end: usize, carry: Carry) -> (s:
    Span)
    requires
        h.wf(),
        start <= end <= h.len(),
        carry.wf(),
    ensures
        s == span_after(*h, block_type, start as int, end as int, carry),
        span_sound(s),
{
    let soc_wh: i64 = h.battery.soc_wh as i64;
    let cap: i64 = h.battery.bat_wh as i64;
    let eff: i64 = h.battery.discharge_efficiency as i64;
    let level_in: i64 = carry.level as i64;
    assert(0 <= level_in * soc_wh <= 90 * 1_000_000) by (nonlinear_arith)
        requires
            0 <= level_in <= 90,
            1 <= soc_wh <= 1_000_000,
    ;
    let charge: i64 = level_in * soc_wh;
    let floor: i64 = if block_type == BlockType::Hold {
        charge
    } else {
        0
    };
    let mut c: i64 = charge;
    let mut min_c: i64 = charge;
    let mut o: i64 = 0;
    let mut ov: i64 = 0;
    let mut i: usize = start;
    proof {
        lemma_simulate_bounded(*h, floor as int, charge as int, start as int, start as int);
    }
    while i < end
        invariant
            h.wf(),
            start <= i <= end <= h.len(),
            0 <= floor <= charge <= MAX_ENERGY,
            cap == h.battery.bat_wh,
            eff == h.battery.discharge_efficiency,
            sim_bounded(
                *h,
                floor as int,
                charge as int,
                simulate(*h, floor as int, charge as int, start as int, i as int),
                i - start,
            ),
            simulate(*h, floor as int, charge as int, start as int, i as int) == (Sim {
                charge: c as int,
                min_charge: min_c as int,
                overflow: o as int,
                overflow_value: ov as int,
            }),
        decreases end - i,
    {
        proof {
            lemma_sim_step_bounded(
                *h,
                floor as int,
                charge as int,
                simulate(*h, floor as int, charge as int, start as int, i as int),
                i as int,
                i - start,
            );
            let n = i - start;
            assert(n * MAX_HOUR_OVERFLOW <= 24 * MAX_HOUR_OVERFLOW) by (nonlinear_arith)
                requires
                    0 <= n <= 24,
            ;
            assert(n * MAX_HOUR_MONEY <= 24 * MAX_HOUR_MONEY) by (nonlinear_arith)
                requires
                    0 <= n <= 24,
            ;
        }
        let np: i64 = h.net_prod[i];
        let sell: i64 = h.tariffs.sell[i];
        let delta: i64 = if np >= 0 {
            np
        } else {
            -(((-np) * 1000) / eff)
        };
        assert(delta == battery_delta(*h, i as int));
        assert(-100_000_000_000 <= delta <= 100_000_000) by (nonlinear_arith)
            requires
                delta == battery_delta(*h, i as int),
                -100_000_000 <= h.net_prod[i as int] <= 100_000_000,
                1 <= h.battery.discharge_efficiency <= 1000,
                np == h.net_prod[i as int],
                delta == (if np >= 0 {
                    np as int
                } else {
                    -(((-np) * 1000) / (eff as int))
                }),
                eff == h.battery.discharge_efficiency,
        ;
        let moved: i64 = c + delta;
        let raw: i64 = if moved < floor {
            floor
        } else {
            moved
        };
        let (kept, over) = correct_overflow(raw, cap);
        assert(0 <= over <= MAX_HOUR_OVERFLOW);
        assert(-MAX_HOUR_MONEY <= over * sell <= MAX_HOUR_MONEY) by (nonlinear_arith)
            requires
                0 <= over <= 200_000_000,
                -100_000_000 <= sell <= 100_000_000,
        ;
        c = kept;
        if kept < min_c {
            min_c = kept;
        }
        o = o + over;
        ov = ov + over * sell;
        i += 1;
    }
    proof {
        lemma_span_after_sound(*h, block_type, start as int, end as int, carry);
        assert((2 * c + soc_wh) / (2 * soc_wh) >= 0) by (nonlinear_arith)
            requires
                c >= 0,
                soc_wh >= 1,
        ;
        assert((2 * c + soc_wh) / (2 * soc_wh) <= 2 * c + soc_wh) by (nonlinear_arith)
            requires
                c >= 0,
                soc_wh >= 1,
        ;
    }
    let l: i64 = (2 * c + soc_wh) / (2 * soc_wh);
    let level_out: u8 = if l > 90 {
        MAX_LEVEL
    } else {
        l as u8
    };
    let tariff_out: u64 = if level_out == 0 || min_c == 0 {
        0
    } else if level_out > carry.level {
        proof {
            lemma_blend_bounded(carry.tariff as int, carry.level as int, level_out as int);
        }
        assert((carry.tariff as int) * (carry.level as int) <= 100_000_000_000 * 90)
            by (nonlinear_arith)
            requires
                carry.tariff <= 100_000_000_000,
                carry.level <= 90,
        ;
        ((carry.tariff as u128 * carry.level as u128) / (level_out as u128)) as u64
    } else {
        carry.tariff
    };
    Span {
        kind: block_type,
        start,
        size: end - start,
        level_in: carry.level,
        level_out,
        tariff_in: carry.tariff,
        tariff_out,
        price: 0,
        overflow: o as u64,
        overflow_price: ov,
    }
}

/// Largest energy, in Wh, that a charge block is asked to draw from the grid.
pub const MAX_GRID_NEED: u64 = 90_000_000_000;

/// How charging from grid went: what it cost, the first hour after it, and
/// what was still missing when the tariffs ended.
pub struct ChargeRun {
    pub cost: int,
    pub end: int,
    pub left: int,
}

/// Charging from hour `start` on until `left` Wh are drawn or the tariffs
/// end. Each hour draws what is left, but no more than `per_hour`, and costs
/// that energy at the hour's buy tariff.
pub open spec fn charge_run(t: Tariffs, per_hour: int, start: int, left: int) -> ChargeRun
    decreases t.length - start,
{
    if start >= t.length || left <= 0 {
        ChargeRun { cost: 0, end: start, left }
    } else {
        let wh = if left > per_hour {
            per_hour
        } else {
            left
        };
        let rest = charge_run(t, per_hour, start + 1, left - wh);
        ChargeRun { cost: rest.cost + wh * t.buy[start], end: rest.end, left: rest.left }
    }
}

/// Bounds on a charge run.
pub proof fn lemma_charge_run_bounded(t: Tariffs, per_hour: int, start: int, left: int)
    requires
        t.wf(),
        1 <= per_hour <= MAX_ENERGY,
        0 <= start <= t.length,
        0 <= left,
    ensures
        start <= charge_run(t, per_hour, start, left).end <= t.length,
        0 <= charge_run(t, per_hour, start, left).left <= left,
        0 <= charge_run(t, per_hour, start, left).cost,
        charge_run(t, per_hour, start, left).cost <= (left - charge_run(
            t,
            per_hour,
            start,
            left,
        ).left) * MAX_TARIFF,
        charge_run(t, per_hour, start, left).cost <= (charge_run(t, per_hour, start, left).end
            - start) * (MAX_HOUR_MONEY / 2),
        left > 0 && start < t.length ==> charge_run(t, per_hour, start, left).end > start,
    decreases t.length - start,
{
    if start >= t.length || left <= 0 {
    } else {
        let wh = if left > per_hour {
            per_hour
        } else {
            left
        };
        lemma_charge_run_bounded(t, per_hour, start + 1, left - wh);
        let rest = charge_run(t, per_hour, start + 1, left - wh);
        let buy = t.buy[start] as int;
        assert(0 <= buy <= MAX_TARIFF);
        assert(0 <= wh * buy <= wh * MAX_TARIFF) by (nonlinear_arith)
            requires
                0 <= wh,
                0 <= buy <= MAX_TARIFF,
        ;
        assert(wh * MAX_TARIFF <= MAX_HOUR_MONEY / 2) by (nonlinear_arith)
            requires
                0 <= wh <= 100_000_000,
        ;
        assert((left - wh - rest.left) * MAX_TARIFF + wh * MAX_TARIFF == (left - rest.left)
            * MAX_TARIFF) by (nonlinear_arith);
        assert((rest.end - (start + 1)) * (MAX_HOUR_MONEY / 2) + MAX_HOUR_MONEY / 2 == (rest.end
            - start) * (MAX_HOUR_MONEY / 2)) by (nonlinear_arith);
    }
}

/// Calculates the cost of drawing `charge` Wh from the grid from hour
/// `start` on. Returns the cost, the first hour after the charging, and what
/// was still to draw when the tariffs ended.
pub fn charge_cost_charge_end(tariffs: &Tariffs, charge_wh_hour: u64, start: usize, charge: u64) -> (r:
    (i64, usize, u64))
    requires
        tariffs.wf(),
        1 <= charge_wh_hour <= MAX_ENERGY,
        start <= tariffs.length,
        charge <= MAX_GRID_NEED,
    ensures
        r.0 == charge_run(*tariffs, charge_wh_hour as int, start as int, charge as int).cost,
        r.1 == charge_run(*tariffs, charge_wh_hour as int, start as int, charge as int).end,
        r.2 == charge_run(*tariffs, charge_wh_hour as int, start as int, charge as int).left,
        start <= r.1 <= tariffs.length,
        r.2 <= charge,
        0 <= r.0 <= (charge - r.2) * MAX_TARIFF,
        r.0 <= (r.1 - start) * (MAX_HOUR_MONEY / 2),
{
    let mut cost: i64 = 0;
    let mut left: u64 = charge;
    let mut i: usize = start;
    proof {
        lemma_charge_run_bounded(*tariffs, charge_wh_hour as int, start as int, charge as int);
    }
    while i < tariffs.length && left > 0
        invariant
            tariffs.wf(),
            1 <= charge_wh_hour <= MAX_ENERGY,
            start <= i <= tariffs.length,
            left <= charge <= MAX_GRID_NEED,
            0 <= cost <= (i - start) * (MAX_HOUR_MONEY / 2),
            charge_run(*tariffs, charge_wh_hour as int, start as int, charge as int).cost == cost
                + charge_run(*tariffs, charge_wh_hour as int, i as int, left as int).cost,
            charge_run(*tariffs, charge_wh_hour as int, start as int, charge as int).end
                == charge_run(*tariffs, charge_wh_hour as int, i as int, left as int).end,
            charge_run(*tariffs, charge_wh_hour as int, start as int, charge as int).left
                == charge_run(*tariffs, charge_wh_hour as int, i as int, left as int).left,
        decreases tariffs.length - i,
    {
        let wh: u64 = if left > charge_wh_hour {
            charge_wh_hour
        } else {
            left
        };
        let buy: u64 = tariffs.buy[i];
        assert(0 <= wh * buy <= MAX_HOUR_MONEY / 2) by (nonlinear_arith)
            requires
                0 <= wh <= 100_000_000,
                0 <= buy <= 100_000_000,
        ;
        assert((i - start) * (MAX_HOUR_MONEY / 2) + MAX_HOUR_MONEY / 2 == (i + 1 - start) * (
        MAX_HOUR_MONEY / 2)) by (nonlinear_arith);
        assert((i - start) * (MAX_HOUR_MONEY / 2) <= 24 * (MAX_HOUR_MONEY / 2)) by (nonlinear_arith)
            requires
                0 <= i - start <= 24,
        ;
        cost = cost + (wh * buy) as i64;
        left = left - wh;
        i += 1;
    }
    (cost, i, left)
}

/// Energy, in Wh, to draw from the grid so that the level rises from `from`
/// to `to`: the energy to store, with the loss of charging on top, rounded up.
pub open spec fn grid_need(b: Battery, from: int, to: int) -> int {
    let stored = (to - from) * b.soc_wh * 1000;
    (stored + b.charge_efficiency - 1) / (b.charge_efficiency as int)
}

/// Mean cost of the stored energy after `cost` was paid to raise the level
/// to `target`: what was stored before keeps its cost.
pub open spec fn charged_tariff(b: Battery, carry: Carry, target: int, cost: int) -> int {
    (carry.level * b.soc_wh * carry.tariff + cost) / (target * b.soc_wh)
}

/// The charge block that starts at hour `start` and raises the level to
/// `target`. Where the level is there already, it is a block of no hours.
/// There is none where the tariffs end before the charging is done.
pub open spec fn charge_span(h: Horizon, start: int, target: int, carry: Carry) -> Option<Span> {
    if target <= carry.level {
        Some(
            Span {
                kind: BlockType::Charge,
                start: start as usize,
                size: 0,
                level_in: carry.level,
                level_out: carry.level,
                tariff_in: carry.tariff,
                tariff_out: carry.tariff,
                price: 0,
                overflow: 0,
                overflow_price: 0,
            },
        )
    } else {
        let need = grid_need(h.battery, carry.level as int, target);
        let run = charge_run(h.tariffs, h.battery.charge_wh_hour as int, start, need);
        if run.left > 0 {
            None
        } else {
            Some(
                Span {
                    kind: BlockType::Charge,
                    start: start as usize,
                    size: (run.end - start) as usize,
                    level_in: carry.level,
                    level_out: target as u8,
                    tariff_in: carry.tariff,
                    tariff_out: charged_tariff(h.battery, carry, target, run.cost) as u64,
                    price: run.cost as i64,
                    overflow: 0,
                    overflow_price: 0,
                },
            )
        }
    }
}

/// What holds of every charge block that [`charge_span`] describes.
pub open spec fn charge_sound(s: Span) -> bool {
    &&& s.kind == BlockType::Charge
    &&& s.level_in <= s.level_out <= MAX_LEVEL
    &&& s.tariff_in <= MAX_CARRY_TARIFF
    &&& s.tariff_out <= MAX_CARRY_TARIFF
    &&& s.size <= MAX_HOURS
    &&& 0 <= s.price <= s.size * (MAX_HOUR_MONEY / 2)
    &&& s.overflow == 0
    &&& s.overflow_price == 0
    &&& s.size == 0 ==> s.level_out == s.level_in && s.tariff_out == s.tariff_in
}

/// What is drawn from the grid to raise the level is more than nothing and
/// no more than a thousand times what is stored.
proof fn lemma_grid_need_bounded(b: Battery, from: int, to: int)
    requires
        b.wf(),
        0 <= from < to <= MAX_LEVEL,
    ensures
        0 < grid_need(b, from, to) <= (to - from) * b.soc_wh * 1000,
        grid_need(b, from, to) <= MAX_GRID_NEED,
{
    let stored = (to - from) * b.soc_wh * 1000;
    let e = b.charge_efficiency as int;
    assert(1000 <= stored <= 90 * 1_000_000 * 1000) by (nonlinear_arith)
        requires
            stored == (to - from) * b.soc_wh * 1000,
            1 <= to - from <= 90,
            1 <= b.soc_wh <= 1_000_000,
    ;
    assert(0 < (stored + e - 1) / e <= stored) by (nonlinear_arith)
        requires
            stored >= 1,
            e >= 1,
    ;
}

/// The mean cost of the stored energy after a charge stays within the limit
/// of what a plan carries along, and fits the machine's integers on the way.
pub proof fn lemma_charged_tariff_bounded(b: Battery, carry: Carry, target: int, cost: int)
    requires
        b.wf(),
        carry.wf(),
        carry.level < target <= MAX_LEVEL,
        0 <= cost <= (target - carry.level) * b.soc_wh * 1000 * MAX_TARIFF,
    ensures
        0 <= charged_tariff(b, carry, target, cost) <= MAX_CARRY_TARIFF,
        0 <= carry.level * b.soc_wh * carry.tariff + cost <= 9_000_000_000_000_000_000,
        0 < target * b.soc_wh <= 90_000_000,
{
    let w = b.soc_wh as int;
    let l = carry.level as int;
    let t = carry.tariff as int;
    let m = MAX_CARRY_TARIFF as int;
    assert(1000 * MAX_TARIFF == m);
    assert((target - l) * w * 1000 * MAX_TARIFF == (target - l) * w * m) by (nonlinear_arith)
        requires
            1000 * MAX_TARIFF == m,
    ;
    assert(0 <= l * w * t <= l * w * m) by (nonlinear_arith)
        requires
            0 <= l,
            1 <= w,
            0 <= t <= m,
    ;
    assert(l * w * m + (target - l) * w * m == target * w * m) by (nonlinear_arith);
    let num = l * w * t + cost;
    let den = target * w;
    assert(0 < den <= 90_000_000) by (nonlinear_arith)
        requires
            den == target * w,
            1 <= target <= 90,
            1 <= w <= 1_000_000,
    ;
    assert(0 <= num <= den * m);
    assert(den * m <= 9_000_000_000_000_000_000) by (nonlinear_arith)
        requires
            0 < den <= 90_000_000,
            m == 100_000_000_000,
    ;
    assert(0 <= num / den <= m) by (nonlinear_arith)
        requires
            0 <= num <= den * m,
            den > 0,
    ;
}

/// Every charge block that [`charge_span`] describes is [`charge_sound`]
/// and lies within the horizon.
pub proof fn lemma_charge_span_sound(h: Horizon, start: int, target: int, carry: Carry)
    requires
        h.wf(),
        0 <= start <= h.len(),
        0 <= target <= MAX_LEVEL,
        carry.wf(),
    ensures
        charge_span(h, start, target, carry) matches Some(s) ==> {
            &&& charge_sound(s)
            &&& s.start == start
            &&& s.end() <= h.len()
            &&& s.level_in == carry.level
            &&& s.tariff_in == carry.tariff
            &&& s.level_out == (if target <= carry.level {
                carry.level as int
            } else {
                target
            })
        },
{
    if target > carry.level {
        let need = grid_need(h.battery, carry.level as int, target);
        lemma_grid_need_bounded(h.battery, carry.level as int, target);
        lemma_charge_run_bounded(h.tariffs, h.battery.charge_wh_hour as int, start, need);
        let run = charge_run(h.tariffs, h.battery.charge_wh_hour as int, start, need);
        if run.left <= 0 {
            let bound = (target - carry.level) * h.battery.soc_wh * 1000;
            assert(run.cost <= bound * MAX_TARIFF) by (nonlinear_arith)
                requires
                    run.cost <= (need - run.left) * MAX_TARIFF,
                    run.left >= 0,
                    need <= bound,
            ;
            assert(bound * MAX_TARIFF == (target - carry.level) * h.battery.soc_wh * 1000
                * MAX_TARIFF) by (nonlinear_arith)
                requires
                    bound == (target - carry.level) * h.battery.soc_wh * 1000,
            ;
            lemma_charged_tariff_bounded(h.battery, carry, target, run.cost);
            let n = run.end - start;
            assert(n * (MAX_HOUR_MONEY / 2) <= 24 * (MAX_HOUR_MONEY / 2)) by (nonlinear_arith)
                requires
                    0 <= n <= 24,
            ;
        }
    }
}

/// The hold block from hour `from` up to hour `start`, and the charge block
/// that follows it.
pub open spec fn charge_part(h: Horizon, from: int, start: int, target: int, carry: Carry) -> Option<
    (Span, Span),
> {
    let lead = span_after(h, BlockType::Hold, from, start, carry);
    match charge_span(h, start, target, lead.out()) {
        Some(charge) => Some((lead, charge)),
        None => None,
    }
}

/// Gets the charge block that starts at hour `start` and aims at the level
/// `soc_level`, and the hold block that leads up to it from hour
/// `initial_start`. There is none where the charging does not end within the
/// horizon.
pub fn seek_charge(
    h: &Horizon,
    initial_start: usize,
    start: usize,
    soc_level: u8,
    carry: Carry,
) -> (r: Option<(Span, Span)>)
    requires
        h.wf(),
        initial_start <= start <= h.len(),
        soc_level <= MAX_LEVEL,
        carry.wf(),
    ensures
        r == charge_part(*h, initial_start as int, start as int, soc_level as int, carry),
        r matches Some(p) ==> span_sound(p.0) && charge_sound(p.1) && p.1.end() <= h.len()
            && p.0.start == initial_start && p.0.end() == start && p.1.start == start
            && p.0.level_in == carry.level && p.0.level_out == p.1.level_in,
{
    let lead = update_for_pv(h, BlockType::Hold, initial_start, start, carry);
    let c = lead.carry_out();
    proof {
        lemma_charge_span_sound(*h, start as int, soc_level as int, c);
    }
    if soc_level <= c.level {
        let charge = Span {
            kind: BlockType::Charge,
            start,
            size: 0,
            level_in: c.level,
            level_out: c.level,
            tariff_in: c.tariff,
            tariff_out: c.tariff,
            price: 0,
            overflow: 0,
            overflow_price: 0,
        };
        Some((lead, charge))
    } else {
        let b = &h.battery;
        proof {
            lemma_grid_need_bounded(*b, c.level as int, soc_level as int);
        }
        let rise: u64 = (soc_level - c.level) as u64;
        assert(rise * b.soc_wh * 1000 <= 90_000_000_000) by (nonlinear_arith)
            requires
                rise <= 90,
                b.soc_wh <= 1_000_000,
        ;
        assert(rise * b.soc_wh <= 90_000_000) by (nonlinear_arith)
            requires
                rise <= 90,
                b.soc_wh <= 1_000_000,
        ;
        let stored: u64 = rise * b.soc_wh * 1000;
        let need: u64 = (stored + b.charge_efficiency - 1) / b.charge_efficiency;
        let (cost, end, left) = charge_cost_charge_end(&h.tariffs, b.charge_wh_hour, start, need);
        if left > 0 {
            None
        } else {
            proof {
                let bound = (soc_level - c.level) * b.soc_wh * 1000;
                assert(cost <= bound * MAX_TARIFF) by (nonlinear_arith)
                    requires
                        cost <= (need - left) * MAX_TARIFF,
                        left >= 0,
                        need <= bound,
                ;
                assert(bound * MAX_TARIFF == (soc_level - c.level) * b.soc_wh * 1000 * MAX_TARIFF)
                    by (nonlinear_arith)
                    requires
                        bound == (soc_level - c.level) * b.soc_wh * 1000,
                ;
                lemma_charged_tariff_bounded(*b, c, soc_level as int, cost as int);
            }
            assert((c.level as int) * (b.soc_wh as int) <= 90_000_000) by (nonlinear_arith)
                requires
                    c.level <= 90,
                    b.soc_wh <= 1_000_000,
            ;
            assert((c.level as int) * (b.soc_wh as int) * (c.tariff as int)
                <= 9_000_000_000_000_000_000) by (nonlinear_arith)
                requires
                    c.level <= 90,
                    b.soc_wh <= 1_000_000,
                    c.tariff <= 100_000_000_000,
            ;
            let paid: u128 = (c.level as u128) * (b.soc_wh as u128) * (c.tariff as u128) + (
            cost as u128);
            let stored_after: u128 = (soc_level as u128) * (b.soc_wh as u128);
            let tariff_out: u64 = (paid / stored_after) as u64;
            let charge = Span {
                kind: BlockType::Charge,
                start,
                size: end - start,
                level_in: c.level,
                level_out: soc_level,
                tariff_in: c.tariff,
                tariff_out,
                price: cost,
                overflow: 0,
                overflow_price: 0,
            };
            Some((lead, charge))
        }
    }
}

/// What the load that the panels do not cover would cost at the buy tariff,
/// over the hours from `start` up to `end`. It is what a use block over
/// these hours is worth; over hours without such a load it is nothing, so
/// that charging for them costs more than it saves and a plan without the
/// charge is the better one.
pub open spec fn use_price(h: Horizon, start: int, end: int) -> int
    decreases end - start,
{
    if end <= start {
        0
    } else {
        let np = h.net_prod[end - 1] as int;
        let load = if np < 0 {
            -np
        } else {
            0
        };
        use_price(h, start, end - 1) + load * h.tariffs.buy[end - 1]
    }
}

/// Sum of the buy tariffs of the hours from `start` up to `end`.
pub open spec fn buy_sum(t: Tariffs, start: int, end: int) -> int
    decreases end - start,
{
    if end <= start {
        0
    } else {
        buy_sum(t, start, end - 1) + t.buy[end - 1]
    }
}

/// What a use block that began at hour `start` with `carry` holds when hour
/// `end` begins.
pub open spec fn use_carry(h: Horizon, start: int, carry: Carry, end: int) -> Carry {
    if end <= start {
        carry
    } else {
        span_after(h, BlockType::Use, start, end, carry).out()
    }
}

/// Whether a use block that began at hour `start` takes in hour `end`: the
/// battery still holds energy, and buying costs more than what it holds did.
pub open spec fn use_goes_on(h: Horizon, start: int, carry: Carry, end: int) -> bool {
    let cur = use_carry(h, start, carry, end);
    end < h.len() && cur.level > 0 && h.tariffs.buy[end] > cur.tariff
}

/// First hour after the use block that began at hour `start`, given that it
/// reached hour `end`.
pub open spec fn use_extent(h: Horizon, start: int, carry: Carry, end: int) -> int
    decreases h.len() - end,
{
    if use_goes_on(h, start, carry, end) {
        use_extent(h, start, carry, end + 1)
    } else {
        end
    }
}

/// Whether a use block over the hours from `start` up to `end` is worth
/// scheduling: it has an hour, its mean buy tariff is above the mean cost of
/// the stored energy at its end divided by the charge efficiency, and is at
/// least the lowest tariff that is set for using.
pub open spec fn use_worthwhile(h: Horizon, start: int, end: int, tariff_out: int) -> bool {
    &&& end > start
    &&& buy_sum(h.tariffs, start, end) * h.battery.charge_efficiency > tariff_out * 1000 * (end
        - start)
    &&& buy_sum(h.tariffs, start, end) >= h.battery.min_use_tariff * (end - start)
}

/// The use block that starts at hour `start`, and the hold block that leads
/// up to it from hour `from`. There is none where the use block is not
/// worth scheduling.
pub open spec fn use_part(h: Horizon, from: int, start: int, carry: Carry) -> Option<(Span, Span)> {
    let rest = span_after(h, BlockType::Hold, from, start, carry);
    let end = use_extent(h, start, rest.out(), start);
    let played = span_after(h, BlockType::Use, start, end, rest.out());
    if use_worthwhile(h, start, end, played.tariff_out as int) {
        Some((rest, Span { price: use_price(h, start, end) as i64, ..played }))
    } else {
        None
    }
}

/// A use block ends within the horizon, no earlier than it was reached.
proof fn lemma_use_extent_bounded(h: Horizon, start: int, carry: Carry, end: int)
    requires
        0 <= start <= end <= h.len(),
    ensures
        end <= use_extent(h, start, carry, end) <= h.len(),
    decreases h.len() - end,
{
    if use_goes_on(h, start, carry, end) {
        lemma_use_extent_bounded(h, start, carry, end + 1);
    }
}

/// Bounds on what a use block saves and on the sum of its buy tariffs.
proof fn lemma_use_sums_bounded(h: Horizon, start: int, end: int)
    requires
        h.wf(),
        0 <= start <= end <= h.len(),
    ensures
        0 <= use_price(h, start, end) <= (end - start) * (MAX_HOUR_MONEY / 2),
        0 <= buy_sum(h.tariffs, start, end) <= (end - start) * MAX_TARIFF,
    decreases end - start,
{
    if end > start {
        lemma_use_sums_bounded(h, start, end - 1);
        let np = h.net_prod[end - 1] as int;
        let buy = h.tariffs.buy[end - 1] as int;
        let load = if np < 0 {
            -np
        } else {
            0
        };
        assert(0 <= load * buy <= MAX_HOUR_MONEY / 2) by (nonlinear_arith)
            requires
                0 <= load <= 100_000_000,
                0 <= buy <= 100_000_000,
        ;
        assert((end - 1 - start) * (MAX_HOUR_MONEY / 2) + MAX_HOUR_MONEY / 2 == (end - start) * (
        MAX_HOUR_MONEY / 2)) by (nonlinear_arith);
        assert((end - 1 - start) * MAX_TARIFF + MAX_TARIFF == (end - start) * MAX_TARIFF)
            by (nonlinear_arith);
    }
}

/// What holds of every use block that [`use_part`] describes.
pub open spec fn use_sound(h: Horizon, s: Span) -> bool {
    &&& s.kind == BlockType::Use
    &&& span_sound(s)
    &&& 1 <= s.size
    &&& s.end() <= h.len()
    &&& 0 <= s.price <= s.size * (MAX_HOUR_MONEY / 2)
    &&& use_worthwhile(h, s.start as int, s.end(), s.tariff_out as int)
}

/// Sums up what a use block over the hours from `start` up to `end` saves,
/// and the buy tariffs of its hours.
pub fn use_block_sums(h: &Horizon, start: usize, end: usize) -> (r: (i64, u64))
    requires
        h.wf(),
        start <= end <= h.len(),
    ensures
        r.0 == use_price(*h, start as int, end as int),
        r.1 == buy_sum(h.tariffs, start as int, end as int),
        0 <= r.0 <= (end - start) * (MAX_HOUR_MONEY / 2),
        r.1 <= (end - start) * MAX_TARIFF,
{
    let mut price: i64 = 0;
    let mut sum: u64 = 0;
    let mut i: usize = start;
    while i < end
        invariant
            h.wf(),
            start <= i <= end <= h.len(),
            price == use_price(*h, start as int, i as int),
            sum == buy_sum(h.tariffs, start as int, i as int),
            0 <= price <= (i - start) * (MAX_HOUR_MONEY / 2),
            sum <= (i - start) * MAX_TARIFF,
        decreases end - i,
    {
        proof {
            lemma_use_sums_bounded(*h, start as int, i + 1);
            let n = i + 1 - start;
            assert(n * (MAX_HOUR_MONEY / 2) <= 24 * (MAX_HOUR_MONEY / 2)) by (nonlinear_arith)
                requires
                    0 <= n <= 24,
            ;
            assert(n * MAX_TARIFF <= 24 * MAX_TARIFF) by (nonlinear_arith)
                requires
                    0 <= n <= 24,
            ;
        }
        let np: i64 = h.net_prod[i];
        let buy: u64 = h.tariffs.buy[i];
        let load: i64 = if np < 0 {
            -np
        } else {
            0
        };
        assert(0 <= load * buy <= MAX_HOUR_MONEY / 2) by (nonlinear_arith)
            requires
                0 <= load <= 100_000_000,
                0 <= buy <= 100_000_000,
        ;
        price = price + load * (buy as i64);
        sum = sum + buy;
        i += 1;
    }
    (price, sum)
}

/// Seeks the use block that starts at hour `start`, and the hold block that
/// leads up to it from hour `initial_start`. The use block goes on while the
/// battery holds energy and buying costs more than what it holds did. There
/// is none where the use block is not worth scheduling.
pub fn seek_use(h: &Horizon, initial_start: usize, start: usize, carry: Carry) -> (r: Option<
    (Span, Span),
>)
    requires
        h.wf(),
        initial_start <= start <= h.len(),
        carry.wf(),
    ensures
        r == use_part(*h, initial_start as int, start as int, carry),
        r matches Some(p) ==> span_sound(p.0) && use_sound(*h, p.1) && p.0.start == initial_start
            && p.0.end() == start && p.1.start == start && p.0.level_in == carry.level
            && p.0.level_out == p.1.level_in && p.0.kind == BlockType::Hold && p.0.price == 0,
{
    let rest = update_for_pv(h, BlockType::Hold, initial_start, start, carry);
    let c = rest.carry_out();
    let mut end: usize = start;
    let mut cur: Carry = c;
    while end < h.tariffs.length && cur.level > 0 && h.tariffs.buy[end] > cur.tariff
        invariant
            h.wf(),
            c.wf(),
            cur.wf(),
            start <= end <= h.len(),
            cur == use_carry(*h, start as int, c, end as int),
            use_extent(*h, start as int, c, end as int) == use_extent(
                *h,
                start as int,
                c,
                start as int,
            ),
        decreases h.len() - end,
    {
        let step = update_for_pv(h, BlockType::Use, start, end + 1, c);
        cur = step.carry_out();
        end += 1;
    }
    assert(!use_goes_on(*h, start as int, c, end as int));
    get_use_blocks(h, start, end, rest)
}

/// Creates the use block over the hours from `u_start` up to `u_end`, after
/// the hold block `hold`, and prices it. There is none where the use block
/// is not worth scheduling.
pub fn get_use_blocks(h: &Horizon, u_start: usize, u_end: usize, hold: Span) -> (r: Option<
    (Span, Span),
>)
    requires
        h.wf(),
        u_start <= u_end <= h.len(),
        hold.out().wf(),
    ensures
        r == (if use_worthwhile(
            *h,
            u_start as int,
            u_end as int,
            span_after(*h, BlockType::Use, u_start as int, u_end as int, hold.out()).tariff_out as int,
        ) {
            Some(
                (
                    hold,
                    Span {
                        price: use_price(*h, u_start as int, u_end as int) as i64,
                        ..span_after(*h, BlockType::Use, u_start as int, u_end as int, hold.out())
                    },
                ),
            )
        } else {
            None
        }),
        r matches Some(p) ==> p.0 == hold && use_sound(*h, p.1) && p.1.start == u_start
            && p.1.level_in == hold.level_out,
{
    let start = u_start;
    let end = u_end;
    let rest = hold;
    let played = update_for_pv(h, BlockType::Use, start, end, hold.carry_out());
    let (price, sum) = use_block_sums(h, start, end);
    let n: u64 = (end - start) as u64;
    assert(sum * h.battery.charge_efficiency <= 24 * 100_000_000 * 1000) by (nonlinear_arith)
        requires
            sum <= n * MAX_TARIFF,
            n <= 24,
            h.battery.charge_efficiency <= 1000,
    ;
    assert(played.tariff_out * 1000 * n <= 100_000_000_000 * 1000 * 24) by (nonlinear_arith)
        requires
            played.tariff_out <= 100_000_000_000,
            n <= 24,
    ;
    assert(h.battery.min_use_tariff * n <= 100_000_000 * 24) by (nonlinear_arith)
        requires
            h.battery.min_use_tariff <= 100_000_000,
            n <= 24,
    ;
    if end > start && sum * h.battery.charge_efficiency > played.tariff_out * 1000 * n && sum
        >= h.battery.min_use_tariff * n {
        let usage = Span {
            kind: played.kind,
            start: played.start,
            size: played.size,
            level_in: played.level_in,
            level_out: played.level_out,
            tariff_in: played.tariff_in,
            tariff_out: played.tariff_out,
            price,
            overflow: played.overflow,
            overflow_price: played.overflow_price,
        };
        Some((rest, usage))
    } else {
        None
    }
}

/// Bound on the money that one charge and use pair moves.
pub const MAX_LEG_VALUE: i64 = 2_000_000_000_000_000_000;

/// One charge and use pair of a plan: a hold block, a charge block, a hold
/// block and a use block, of which all but the last may be of no hours. It
/// remembers what it was sought with.
#[derive(Clone, Copy, Debug)]
pub struct Leg {
    /// Hour at which the charge block was sought.
    pub seek: usize,
    /// Level that the charge block aims at.
    pub target: u8,
    /// Hour at which the use block was sought.
    pub use_start: usize,
    pub lead: Span,
    pub charge: Span,
    pub rest: Span,
    pub usage: Span,
}

/// One if the span has hours, else zero.
pub open spec fn counted(s: Span) -> int {
    if s.size > 0 {
        1
    } else {
        0
    }
}

impl Leg {
    /// Net value: what is saved and sold, less what charging costs.
    pub open spec fn value(&self) -> int {
        self.lead.overflow_price - self.charge.price + self.rest.overflow_price
            + self.usage.price + self.usage.overflow_price
    }

    /// Number of blocks that have hours.
    pub open spec fn count(&self) -> int {
        counted(self.lead) + counted(self.charge) + counted(self.rest) + counted(self.usage)
    }

    /// First hour after the pair.
    pub open spec fn end(&self) -> int {
        self.usage.end()
    }

    /// What the pair hands on.
    pub open spec fn out(&self) -> Carry {
        self.usage.out()
    }

    /// The blocks follow each other without a gap, each enters at the level
    /// that the one before left at, and each is sound for its kind.
    pub open spec fn sound(&self, h: Horizon) -> bool {
        &&& span_sound(self.lead)
        &&& self.lead.kind == BlockType::Hold
        &&& self.lead.price == 0
        &&& charge_sound(self.charge)
        &&& span_sound(self.rest)
        &&& self.rest.kind == BlockType::Hold
        &&& self.rest.price == 0
        &&& use_sound(h, self.usage)
        &&& self.lead.end() == self.charge.start
        &&& self.charge.end() == self.rest.start
        &&& self.rest.end() == self.usage.start
        &&& self.lead.level_out == self.charge.level_in
        &&& self.charge.level_out == self.rest.level_in
        &&& self.rest.level_out == self.usage.level_in
        &&& self.lead.size == 0 ==> self.lead.level_out == self.lead.level_in
        &&& self.rest.size == 0 ==> self.rest.level_out == self.rest.level_in
    }
}

/// The pair that charges at hour `seek` up to the level `target` and uses
/// the battery from hour `use_start` on, after the hour `from` at which the
/// battery holds `carry`. There is none where the hours are not in this
/// order within the horizon, the level is above [`MAX_LEVEL`], the charging
/// does not end in time or the use block is not worth scheduling.
pub open spec fn leg(h: Horizon, from: int, carry: Carry, seek: int, target: int, use_start: int) -> Option<
    Leg,
> {
    if 0 <= from <= seek < h.len() && 0 <= target <= MAX_LEVEL {
        match charge_part(h, from, seek, target, carry) {
            None => None,
            Some((lead, charge)) => {
                if charge.end() <= use_start < h.len() {
                    match use_part(h, charge.end(), use_start, charge.out()) {
                        None => None,
                        Some((rest, usage)) => Some(
                            Leg {
                                seek: seek as usize,
                                target: target as u8,
                                use_start: use_start as usize,
                                lead,
                                charge,
                                rest,
                                usage,
                            },
                        ),
                    }
                } else {
                    None
                }
            },
        }
    } else {
        None
    }
}

/// A plan: no pair, which stands for using the battery all through, one
/// pair, or two.
#[derive(Clone, Copy, Debug)]
pub struct Plan {
    pub first: Option<Leg>,
    pub second: Option<Leg>,
}

/// The plan of using the battery all through the horizon.
pub open spec fn baseline() -> Plan {
    Plan { first: None, second: None }
}

/// One if hours are left after hour `end`, which a hold block then fills.
pub open spec fn tail_count(h: Horizon, end: int) -> int {
    if end < h.len() {
        1
    } else {
        0
    }
}

/// Net value of a plan.
pub open spec fn plan_value(p: Plan) -> int {
    match p.first {
        None => 0,
        Some(a) => match p.second {
            None => a.value(),
            Some(b) => a.value() + b.value(),
        },
    }
}

/// Number of blocks of a plan.
pub open spec fn plan_count(h: Horizon, p: Plan) -> int {
    match p.first {
        None => 1,
        Some(a) => match p.second {
            None => a.count() + tail_count(h, a.end()),
            Some(b) => a.count() + b.count() + tail_count(h, b.end()),
        },
    }
}

/// `p` is worth more than `q`, or as much with no more blocks.
pub open spec fn at_least_as_good(h: Horizon, p: Plan, q: Plan) -> bool {
    plan_value(p) > plan_value(q) || (plan_value(p) == plan_value(q) && plan_count(h, p)
        <= plan_count(h, q))
}

/// Where a pair is sought after `prior`: from the start of the horizon with
/// the charge that is carried in, or after the first pair.
pub open spec fn origin(prior: Option<Leg>, carry_in: Carry) -> (int, Carry) {
    match prior {
        None => (0, carry_in),
        Some(a) => (a.end(), a.out()),
    }
}

/// The plan that `x` completes after `prior`.
pub open spec fn completed(prior: Option<Leg>, x: Leg) -> Plan {
    match prior {
        None => Plan { first: Some(x), second: None },
        Some(a) => Plan { first: Some(a), second: Some(x) },
    }
}

/// The plan is made of pairs that the horizon and the carried charge give.
pub open spec fn plan_valid(h: Horizon, carry_in: Carry, p: Plan) -> bool {
    match p.first {
        None => p.second.is_none(),
        Some(a) => {
            &&& leg(h, 0, carry_in, a.seek as int, a.target as int, a.use_start as int) == Some(a)
            &&& match p.second {
                None => true,
                Some(b) => leg(
                    h,
                    a.end(),
                    a.out(),
                    b.seek as int,
                    b.target as int,
                    b.use_start as int,
                ) == Some(b),
            }
        },
    }
}

/// `p` is at least as good as every plan of two pairs that begins with `a`.
pub open spec fn second_covered(h: Horizon, a: Leg, p: Plan) -> bool {
    forall|s: int, l: int, u: int|
        #![trigger leg(h, a.end(), a.out(), s, l, u)]
        leg(h, a.end(), a.out(), s, l, u) matches Some(b) ==> at_least_as_good(
            h,
            p,
            Plan { first: Some(a), second: Some(b) },
        )
}

/// `p` is at least as good as the plan that `x` completes after `prior`,
/// and, where `x` is a first pair, as every plan of two pairs that begins
/// with it.
pub open spec fn covers_leg(h: Horizon, prior: Option<Leg>, x: Leg, p: Plan) -> bool {
    &&& at_least_as_good(h, p, completed(prior, x))
    &&& prior.is_none() ==> second_covered(h, x, p)
}

/// `p` is at least as good as every plan of one pair or two.
pub open spec fn first_covered(h: Horizon, carry_in: Carry, p: Plan) -> bool {
    forall|s: int, l: int, u: int|
        #![trigger leg(h, 0, carry_in, s, l, u)]
        leg(h, 0, carry_in, s, l, u) matches Some(a) ==> covers_leg(h, None, a, p)
}

/// `p` is a best plan: one that the horizon and the carried charge give, at
/// least as good as using the battery all through and as every plan of one
/// pair or two.
pub open spec fn best_plan(h: Horizon, carry_in: Carry, p: Plan) -> bool {
    &&& plan_valid(h, carry_in, p)
    &&& at_least_as_good(h, p, baseline())
    &&& first_covered(h, carry_in, p)
}

/// Every pair that [`leg`] describes is sound, lies within the horizon, and
/// moves no more money than [`MAX_LEG_VALUE`].
pub proof fn lemma_leg_sound(h: Horizon, from: int, carry: Carry, seek: int, target: int, use_start: int)
    requires
        h.wf(),
        carry.wf(),
    ensures
        leg(h, from, carry, seek, target, use_start) matches Some(x) ==> {
            &&& x.sound(h)
            &&& x.lead.start == from
            &&& x.lead.level_in == carry.level
            &&& from <= x.end() <= h.len()
            &&& -MAX_LEG_VALUE <= x.value() <= MAX_LEG_VALUE
            &&& 1 <= x.count() <= 4
            &&& x.out().wf()
            &&& x.seek == seek
            &&& x.target == target
            &&& x.use_start == use_start
        },
{
    if 0 <= from <= seek < h.len() && 0 <= target <= MAX_LEVEL {
        lemma_span_after_sound(h, BlockType::Hold, from, seek, carry);
        let lead = span_after(h, BlockType::Hold, from, seek, carry);
        lemma_charge_span_sound(h, seek, target, lead.out());
        match charge_span(h, seek, target, lead.out()) {
            None => {},
            Some(charge) => {
                if charge.end() <= use_start < h.len() {
                    lemma_span_after_sound(
                        h,
                        BlockType::Hold,
                        charge.end(),
                        use_start,
                        charge.out(),
                    );
                    let rest = span_after(h, BlockType::Hold, charge.end(), use_start, charge.out());
                    lemma_use_extent_bounded(h, use_start, rest.out(), use_start);
                    let end = use_extent(h, use_start, rest.out(), use_start);
                    lemma_span_after_sound(h, BlockType::Use, use_start, end, rest.out());
                    lemma_use_sums_bounded(h, use_start, end);
                    let played = span_after(h, BlockType::Use, use_start, end, rest.out());
                    if use_worthwhile(h, use_start, end, played.tariff_out as int) {
                        let x = leg(h, from, carry, seek, target, use_start).unwrap();
                        lemma_leg_value_bounded(h, x);
                    }
                }
            },
        }
    }
}

/// A sound pair moves no more money than [`MAX_LEG_VALUE`].
proof fn lemma_leg_value_bounded(h: Horizon, x: Leg)
    requires
        x.sound(h),
    ensures
        -MAX_LEG_VALUE <= x.value() <= MAX_LEG_VALUE,
{
    let k = MAX_HOUR_MONEY as int;
    assert(x.lead.size * k <= 24 * k) by (nonlinear_arith)
        requires
            x.lead.size <= 24,
            k >= 0,
    ;
    assert(x.charge.size * (k / 2) <= 24 * (k / 2)) by (nonlinear_arith)
        requires
            x.charge.size <= 24,
            k >= 0,
    ;
    assert(x.rest.size * k <= 24 * k) by (nonlinear_arith)
        requires
            x.rest.size <= 24,
            k >= 0,
    ;
    assert(x.usage.size * k <= 24 * k) by (nonlinear_arith)
        requires
            x.usage.size <= 24,
            k >= 0,
    ;
    assert(x.usage.size * (k / 2) <= 24 * (k / 2)) by (nonlinear_arith)
        requires
            x.usage.size <= 24,
            k >= 0,
    ;
}

/// A plan with its value and its number of blocks worked out.
#[derive(Clone, Copy, Debug)]
pub struct Ranked {
    pub plan: Plan,
    pub value: i64,
    pub count: usize,
}

/// The plan is valid and the figures are its own.
pub open spec fn ranked_ok(h: Horizon, carry_in: Carry, r: Ranked) -> bool {
    &&& plan_valid(h, carry_in, r.plan)
    &&& r.value == plan_value(r.plan)
    &&& r.count == plan_count(h, r.plan)
}

/// The pair that a second pair is sought after is one that the horizon and
/// the carried charge give.
pub open spec fn prior_ok(h: Horizon, carry_in: Carry, prior: Option<Leg>) -> bool {
    match prior {
        None => true,
        Some(a) => leg(h, 0, carry_in, a.seek as int, a.target as int, a.use_start as int)
            == Some(a),
    }
}

/// How far the search is from its end: one while the first pair is sought.
pub open spec fn depth(prior: Option<Leg>) -> nat {
    if prior.is_none() {
        1
    } else {
        0
    }
}

/// A plan that is at least as good as one that covers a pair covers the
/// pair as well.
proof fn lemma_covers_mono(h: Horizon, prior: Option<Leg>, x: Leg, p: Plan, q: Plan)
    requires
        covers_leg(h, prior, x, p),
        at_least_as_good(h, q, p),
    ensures
        covers_leg(h, prior, x, q),
{
    if prior.is_none() {
        assert forall|s: int, l: int, u: int|
            #![trigger leg(h, x.end(), x.out(), s, l, u)]
            leg(h, x.end(), x.out(), s, l, u) is Some implies at_least_as_good(
            h,
            q,
            Plan { first: Some(x), second: Some(leg(h, x.end(), x.out(), s, l, u).unwrap()) },
        ) by {
            let b = leg(h, x.end(), x.out(), s, l, u).unwrap();
            assert(at_least_as_good(h, p, Plan { first: Some(x), second: Some(b) }));
        }
    }
}

/// Net value of a pair.
fn leg_value(h: &Horizon, x: &Leg) -> (v: i64)
    requires
        x.sound(*h),
    ensures
        v == x.value(),
        -MAX_LEG_VALUE <= v <= MAX_LEG_VALUE,
{
    proof {
        lemma_leg_value_bounded(*h, *x);
        let k = MAX_HOUR_MONEY as int;
        assert(x.lead.size * k <= 24 * k) by (nonlinear_arith)
            requires
                x.lead.size <= 24,
                k >= 0,
        ;
        assert(x.charge.size * (k / 2) <= 24 * (k / 2)) by (nonlinear_arith)
            requires
                x.charge.size <= 24,
                k >= 0,
        ;
        assert(x.rest.size * k <= 24 * k) by (nonlinear_arith)
            requires
                x.rest.size <= 24,
                k >= 0,
        ;
        assert(x.usage.size * k <= 24 * k) by (nonlinear_arith)
            requires
                x.usage.size <= 24,
                k >= 0,
        ;
        assert(x.usage.size * (k / 2) <= 24 * (k / 2)) by (nonlinear_arith)
            requires
                x.usage.size <= 24,
                k >= 0,
        ;
    }
    x.lead.overflow_price - x.charge.price + x.rest.overflow_price + x.usage.price
        + x.usage.overflow_price
}

/// Number of blocks of a pair that have hours.
fn leg_count(x: &Leg) -> (n: usize)
    ensures
        n == x.count(),
        n <= 4,
{
    let mut n: usize = 0;
    if x.lead.size > 0 {
        n += 1;
    }
    if x.charge.size > 0 {
        n += 1;
    }
    if x.rest.size > 0 {
        n += 1;
    }
    if x.usage.size > 0 {
        n += 1;
    }
    n
}

/// Combines a pair with the pair before it, if any, into a plan, and works
/// out the value and the number of blocks of that plan.
pub fn combine_blocks(h: &Horizon, prior: Option<Leg>, x: Leg) -> (r: Ranked)
    requires
        h.wf(),
        x.sound(*h),
        x.end() <= h.len(),
        prior matches Some(a) ==> a.sound(*h),
    ensures
        r.plan == completed(prior, x),
        r.value == plan_value(r.plan),
        r.count == plan_count(*h, r.plan),
{
    let tail: usize = if x.usage.start + x.usage.size < h.tariffs.length {
        1
    } else {
        0
    };
    match prior {
        None => Ranked {
            plan: Plan { first: Some(x), second: None },
            value: leg_value(h, &x),
            count: leg_count(&x) + tail,
        },
        Some(a) => Ranked {
            plan: Plan { first: Some(a), second: Some(x) },
            value: leg_value(h, &a) + leg_value(h, &x),
            count: leg_count(&a) + leg_count(&x) + tail,
        },
    }
}

/// Keeps the better of two plans: the one worth more, and of two worth the
/// same the one with fewer blocks; the first where they do not differ.
pub fn record_best(best: Ranked, cand: Ranked) -> (r: Ranked)
    ensures
        r == (if cand.value > best.value || (cand.value == best.value && cand.count < best.count) {
            cand
        } else {
            best
        }),
{
    if cand.value > best.value || (cand.value == best.value && cand.count < best.count) {
        cand
    } else {
        best
    }
}

/// Tries every hour at which the use block of a pair can start, for a pair
/// whose charge block is given, and for each pair found, where it is a first
/// pair, every second pair after it.
fn search_use(
    h: &Horizon,
    carry_in: Carry,
    prior: Option<Leg>,
    seek: usize,
    target: u8,
    part: (Span, Span),
    best: Ranked,
) -> (r: Ranked)
    requires
        h.wf(),
        carry_in.wf(),
        prior_ok(*h, carry_in, prior),
        origin(prior, carry_in).0 <= seek < h.len(),
        target <= MAX_LEVEL,
        charge_part(
            *h,
            origin(prior, carry_in).0,
            seek as int,
            target as int,
            origin(prior, carry_in).1,
        ) == Some(part),
        ranked_ok(*h, carry_in, best),
    ensures
        ranked_ok(*h, carry_in, r),
        at_least_as_good(*h, r.plan, best.plan),
        forall|u: int|
            #![trigger leg(*h, origin(prior, carry_in).0, origin(prior, carry_in).1, seek as int, target as int, u)]
            leg(
                *h,
                origin(prior, carry_in).0,
                origin(prior, carry_in).1,
                seek as int,
                target as int,
                u,
            ) matches Some(x) ==> covers_leg(*h, prior, x, r.plan),
    decreases depth(prior), 1nat,
{
    let ghost from = origin(prior, carry_in).0;
    let ghost carry = origin(prior, carry_in).1;
    proof {
        if let Some(a) = prior {
            lemma_leg_sound(
                *h,
                0,
                carry_in,
                a.seek as int,
                a.target as int,
                a.use_start as int,
            );
        }
        lemma_span_after_sound(*h, BlockType::Hold, from, seek as int, carry);
        lemma_charge_span_sound(
            *h,
            seek as int,
            target as int,
            span_after(*h, BlockType::Hold, from, seek as int, carry).out(),
        );
    }
    let charge_end: usize = part.1.start + part.1.size;
    let after_charge: Carry = part.1.carry_out();
    let mut cur: Ranked = best;
    let mut u: usize = charge_end;
    while u < h.tariffs.length
        invariant
            h.wf(),
            carry_in.wf(),
            prior_ok(*h, carry_in, prior),
            from == origin(prior, carry_in).0,
            carry == origin(prior, carry_in).1,
            carry.wf(),
            0 <= from <= seek < h.len(),
            target <= MAX_LEVEL,
            charge_part(*h, from, seek as int, target as int, carry) == Some(part),
            charge_end == part.1.end(),
            after_charge == part.1.out(),
            after_charge.wf(),
            charge_end <= u <= h.len(),
            ranked_ok(*h, carry_in, cur),
            at_least_as_good(*h, cur.plan, best.plan),
            prior matches Some(a) ==> a.sound(*h),
            forall|v: int|
                #![trigger leg(*h, from, carry, seek as int, target as int, v)]
                v < u ==> (leg(*h, from, carry, seek as int, target as int, v) matches Some(x)
                    ==> covers_leg(*h, prior, x, cur.plan)),
        decreases h.len() - u,
    {
        let ghost before = cur;
        match seek_use(h, charge_end, u, after_charge) {
            Some(up) => {
                let x = Leg {
                    seek,
                    target,
                    use_start: u,
                    lead: part.0,
                    charge: part.1,
                    rest: up.0,
                    usage: up.1,
                };
                proof {
                    assert(leg(*h, from, carry, seek as int, target as int, u as int) == Some(x));
                    lemma_leg_sound(*h, from, carry, seek as int, target as int, u as int);
                }
                let cand = combine_blocks(h, prior, x);
                cur = record_best(cur, cand);
                if prior.is_none() {
                    cur = search(h, carry_in, Some(x), cur);
                }
                proof {
                    assert(covers_leg(*h, prior, x, cur.plan));
                }
            },
            None => {
                assert(leg(*h, from, carry, seek as int, target as int, u as int).is_none());
            },
        }
        proof {
            assert(at_least_as_good(*h, cur.plan, before.plan));
            assert forall|v: int|
                #![trigger leg(*h, from, carry, seek as int, target as int, v)]
                v < u + 1 && leg(
                    *h,
                    from,
                    carry,
                    seek as int,
                    target as int,
                    v,
                ) is Some implies covers_leg(
                *h,
                prior,
                leg(*h, from, carry, seek as int, target as int, v).unwrap(),
                cur.plan,
            ) by {
                let y = leg(*h, from, carry, seek as int, target as int, v).unwrap();
                if v < u {
                    lemma_covers_mono(*h, prior, y, before.plan, cur.plan);
                }
            }
        }
        u += 1;
    }
    cur
}

/// Tries every level that the charge block of a pair can aim at, for a
/// charge block sought at hour `seek`.
fn search_levels(h: &Horizon, carry_in: Carry, prior: Option<Leg>, seek: usize, best: Ranked) -> (r:
    Ranked)
    requires
        h.wf(),
        carry_in.wf(),
        prior_ok(*h, carry_in, prior),
        origin(prior, carry_in).0 <= seek < h.len(),
        ranked_ok(*h, carry_in, best),
    ensures
        ranked_ok(*h, carry_in, r),
        at_least_as_good(*h, r.plan, best.plan),
        forall|l: int, u: int|
            #![trigger leg(*h, origin(prior, carry_in).0, origin(prior, carry_in).1, seek as int, l, u)]
            leg(
                *h,
                origin(prior, carry_in).0,
                origin(prior, carry_in).1,
                seek as int,
                l,
                u,
            ) matches Some(x) ==> covers_leg(*h, prior, x, r.plan),
    decreases depth(prior), 2nat,
{
    let ghost from = origin(prior, carry_in).0;
    let ghost carry = origin(prior, carry_in).1;
    proof {
        if let Some(a) = prior {
            lemma_leg_sound(
                *h,
                0,
                carry_in,
                a.seek as int,
                a.target as int,
                a.use_start as int,
            );
        }
    }
    let (start, entered): (usize, Carry) = match prior {
        None => (0, carry_in),
        Some(a) => (a.usage.start + a.usage.size, a.usage.carry_out()),
    };
    let mut cur: Ranked = best;
    let mut target: u8 = 0;
    while target <= MAX_LEVEL
        invariant
            h.wf(),
            carry_in.wf(),
            prior_ok(*h, carry_in, prior),
            from == origin(prior, carry_in).0,
            carry == origin(prior, carry_in).1,
            start == from,
            entered == carry,
            carry.wf(),
            0 <= from <= seek < h.len(),
            target <= MAX_LEVEL + 1,
            ranked_ok(*h, carry_in, cur),
            at_least_as_good(*h, cur.plan, best.plan),
            forall|l: int, u: int|
                #![trigger leg(*h, from, carry, seek as int, l, u)]
                l < target ==> (leg(*h, from, carry, seek as int, l, u) matches Some(x)
                    ==> covers_leg(*h, prior, x, cur.plan)),
        decreases MAX_LEVEL + 1 - target,
    {
        let ghost before = cur;
        match seek_charge(h, start, seek, target, entered) {
            Some(part) => {
                cur = search_use(h, carry_in, prior, seek, target, part, cur);
            },
            None => {
                assert(forall|u: int|
                    #![trigger leg(*h, from, carry, seek as int, target as int, u)]
                    leg(*h, from, carry, seek as int, target as int, u).is_none());
            },
        }
        proof {
            assert forall|l: int, u: int|
                #![trigger leg(*h, from, carry, seek as int, l, u)]
                l < target + 1 && leg(*h, from, carry, seek as int, l, u) is Some implies covers_leg(
                *h,
                prior,
                leg(*h, from, carry, seek as int, l, u).unwrap(),
                cur.plan,
            ) by {
                let y = leg(*h, from, carry, seek as int, l, u).unwrap();
                if l < target {
                    lemma_covers_mono(*h, prior, y, before.plan, cur.plan);
                }
            }
        }
        target += 1;
    }
    cur
}

/// Tries every hour at which the charge block of a pair can be sought,
/// after `prior` where that is given.
fn search(h: &Horizon, carry_in: Carry, prior: Option<Leg>, best: Ranked) -> (r: Ranked)
    requires
        h.wf(),
        carry_in.wf(),
        prior_ok(*h, carry_in, prior),
        ranked_ok(*h, carry_in, best),
    ensures
        ranked_ok(*h, carry_in, r),
        at_least_as_good(*h, r.plan, best.plan),
        forall|s: int, l: int, u: int|
            #![trigger leg(*h, origin(prior, carry_in).0, origin(prior, carry_in).1, s, l, u)]
            leg(*h, origin(prior, carry_in).0, origin(prior, carry_in).1, s, l, u) matches Some(
                x,
            ) ==> covers_leg(*h, prior, x, r.plan),
    decreases depth(prior), 3nat,
{
    let ghost from = origin(prior, carry_in).0;
    let ghost carry = origin(prior, carry_in).1;
    proof {
        if let Some(a) = prior {
            lemma_leg_sound(
                *h,
                0,
                carry_in,
                a.seek as int,
                a.target as int,
                a.use_start as int,
            );
        }
    }
    let start: usize = match prior {
        None => 0,
        Some(a) => a.usage.start + a.usage.size,
    };
    let mut cur: Ranked = best;
    let mut seek: usize = start;
    while seek < h.tariffs.length
        invariant
            h.wf(),
            carry_in.wf(),
            prior_ok(*h, carry_in, prior),
            from == origin(prior, carry_in).0,
            carry == origin(prior, carry_in).1,
            start == from,
            from <= seek <= h.len(),
            ranked_ok(*h, carry_in, cur),
            at_least_as_good(*h, cur.plan, best.plan),
            forall|s: int, l: int, u: int|
                #![trigger leg(*h, from, carry, s, l, u)]
                s < seek ==> (leg(*h, from, carry, s, l, u) matches Some(x) ==> covers_leg(
                    *h,
                    prior,
                    x,
                    cur.plan,
                )),
        decreases h.len() - seek,
    {
        let ghost before = cur;
        cur = search_levels(h, carry_in, prior, seek, cur);
        proof {
            assert forall|s: int, l: int, u: int|
                #![trigger leg(*h, from, carry, s, l, u)]
                s < seek + 1 && leg(*h, from, carry, s, l, u) is Some implies covers_leg(
                *h,
                prior,
                leg(*h, from, carry, s, l, u).unwrap(),
                cur.plan,
            ) by {
                let y = leg(*h, from, carry, s, l, u).unwrap();
                if s < seek {
                    lemma_covers_mono(*h, prior, y, before.plan, cur.plan);
                }
            }
        }
        seek += 1;
    }
    cur
}

/// Seeks the best plan for the horizon, given what the battery holds at its
/// start. The search goes through every hour at which a first charge block
/// can start, every level that it can aim at and every hour at which a use
/// block can start after it, and the same again for a second pair; the plan
/// of using the battery all through is the one to beat.
pub fn seek_best(h: &Horizon, carry_in: Carry) -> (p: Plan)
    requires
        h.wf(),
        carry_in.wf(),
    ensures
        best_plan(*h, carry_in, p),
{
    let start = Ranked { plan: Plan { first: None, second: None }, value: 0, count: 1 };
    let r = search(h, carry_in, None, start);
    r.plan
}

/// `spans` with `x` at its end, unless `x` has no hours.
pub open spec fn push_if(spans: Seq<Span>, x: Span) -> Seq<Span> {
    if x.size > 0 {
        spans.push(x)
    } else {
        spans
    }
}

/// `spans` with the blocks of the pair `a` that have hours at its end.
pub open spec fn leg_onto(spans: Seq<Span>, a: Leg) -> Seq<Span> {
    push_if(push_if(push_if(push_if(spans, a.lead), a.charge), a.rest), a.usage)
}

/// The block of using the battery all through the horizon. It is the plan
/// to beat, and counts for nothing.
pub open spec fn baseline_span(h: Horizon, carry_in: Carry) -> Span {
    Span { overflow_price: 0, ..span_after(h, BlockType::Use, 0, h.len(), carry_in) }
}

/// The hold block that fills the horizon after hour `end`. What overflows in
/// it is not counted as sold.
pub open spec fn tail_span(h: Horizon, end: int, carry: Carry) -> Span {
    Span { overflow_price: 0, ..span_after(h, BlockType::Hold, end, h.len(), carry) }
}

/// The blocks of a plan, in order: the blocks of its pairs that have hours,
/// and a hold block up to the end of the horizon where hours are left.
pub open spec fn plan_spans(h: Horizon, carry_in: Carry, p: Plan) -> Seq<Span> {
    match p.first {
        None => seq![baseline_span(h, carry_in)],
        Some(a) => {
            let one = leg_onto(Seq::empty(), a);
            let (all, last) = match p.second {
                None => (one, a),
                Some(b) => (leg_onto(one, b), b),
            };
            if last.end() < h.len() {
                all.push(tail_span(h, last.end(), last.out()))
            } else {
                all
            }
        },
    }
}

/// The blocks cover the hours from the first up to `pos` without a gap, each
/// has an hour, each enters at the level that the one before left at, the
/// first at `level_in` and the last leaving at `level`.
pub open spec fn chained(spans: Seq<Span>, pos: int, level_in: int, level: int) -> bool {
    &&& forall|i: int|
        0 <= i < spans.len() ==> {
            &&& (#[trigger] spans[i]).size >= 1
            &&& spans[i].level_in <= MAX_LEVEL
            &&& spans[i].level_out <= MAX_LEVEL
            &&& spans[i].kind != BlockType::Charge ==> spans[i].tariff_out <= spans[i].tariff_in
            &&& spans[i].start + spans[i].size <= MAX_HOURS
        }
    &&& forall|i: int, j: int|
        0 <= i && j == i + 1 && j < spans.len() ==> (#[trigger] spans[i]).end() == (
        #[trigger] spans[j]).start && spans[i].level_out == spans[j].level_in
    &&& if spans.len() == 0 {
        pos == 0 && level == level_in
    } else {
        &&& spans[0].start == 0
        &&& spans[0].level_in == level_in
        &&& spans[spans.len() - 1].end() == pos
        &&& spans[spans.len() - 1].level_out == level
    }
}

/// Every use block among `spans` is worth scheduling.
pub open spec fn uses_worthwhile(h: Horizon, spans: Seq<Span>) -> bool {
    forall|i: int|
        0 <= i < spans.len() && (#[trigger] spans[i]).kind == BlockType::Use ==> use_worthwhile(
            h,
            spans[i].start as int,
            spans[i].end(),
            spans[i].tariff_out as int,
        )
}

/// A block that begins where the chain ends, at the level that the chain
/// leaves at, keeps the chain a chain when it is added.
proof fn lemma_push_if_chained(
    h: Horizon,
    spans: Seq<Span>,
    x: Span,
    pos: int,
    level_in: int,
    level: int,
)
    requires
        chained(spans, pos, level_in, level),
        uses_worthwhile(h, spans),
        x.start == pos,
        x.level_in == level,
        x.level_in <= MAX_LEVEL,
        x.level_out <= MAX_LEVEL,
        x.start + x.size <= MAX_HOURS,
        x.size == 0 ==> x.level_out == x.level_in,
        x.kind != BlockType::Charge ==> x.tariff_out <= x.tariff_in,
        x.kind == BlockType::Use ==> use_worthwhile(
            h,
            x.start as int,
            x.end(),
            x.tariff_out as int,
        ),
    ensures
        chained(push_if(spans, x), x.end(), level_in, x.level_out as int),
        uses_worthwhile(h, push_if(spans, x)),
        push_if(spans, x).len() <= spans.len() + 1,
        x.size > 0 ==> push_if(spans, x).len() == spans.len() + 1,
{
    if x.size > 0 {
        let t = spans.push(x);
        assert forall|i: int, j: int| 0 <= i && j == i + 1 && j < t.len() implies (
        #[trigger] t[i]).end() == (#[trigger] t[j]).start && t[i].level_out
            == t[j].level_in by {
            if j < spans.len() {
                assert(t[i] == spans[i]);
                assert(t[j] == spans[j]);
            } else {
                assert(t[i] == spans[spans.len() - 1]);
            }
        }
        assert forall|i: int| 0 <= i < t.len() implies {
            &&& (#[trigger] t[i]).size >= 1
            &&& t[i].level_in <= MAX_LEVEL
            &&& t[i].level_out <= MAX_LEVEL
            &&& t[i].kind != BlockType::Charge ==> t[i].tariff_out <= t[i].tariff_in
            &&& t[i].start + t[i].size <= MAX_HOURS
        } by {
            if i < spans.len() {
                assert(t[i] == spans[i]);
            }
        }
        assert forall|i: int|
            0 <= i < t.len() && (#[trigger] t[i]).kind == BlockType::Use implies use_worthwhile(
            h,
            t[i].start as int,
            t[i].end(),
            t[i].tariff_out as int,
        ) by {
            if i < spans.len() {
                assert(t[i] == spans[i]);
            }
        }
    }
}

/// The blocks of a sound pair that begins where the chain ends keep the
/// chain a chain when they are added.
proof fn lemma_leg_onto_chained(h: Horizon, spans: Seq<Span>, a: Leg, pos: int, level_in: int, level: int)
    requires
        h.wf(),
        chained(spans, pos, level_in, level),
        uses_worthwhile(h, spans),
        a.sound(h),
        a.lead.start == pos,
        a.lead.level_in == level,
        a.end() <= h.len(),
    ensures
        chained(leg_onto(spans, a), a.end(), level_in, a.out().level as int),
        uses_worthwhile(h, leg_onto(spans, a)),
        spans.len() + 1 <= leg_onto(spans, a).len() <= spans.len() + 4,
{
    let with_lead = push_if(spans, a.lead);
    lemma_push_if_chained(h, spans, a.lead, pos, level_in, level);
    let with_charge = push_if(with_lead, a.charge);
    lemma_push_if_chained(
        h,
        with_lead,
        a.charge,
        a.lead.end(),
        level_in,
        a.lead.level_out as int,
    );
    let with_rest = push_if(with_charge, a.rest);
    lemma_push_if_chained(
        h,
        with_charge,
        a.rest,
        a.charge.end(),
        level_in,
        a.charge.level_out as int,
    );
    lemma_push_if_chained(h, with_rest, a.usage, a.rest.end(), level_in, a.rest.level_out as int);
}

/// The blocks of a valid plan cover the horizon without a gap, each enters
/// at the level that the one before left at, none but a charge block raises
/// the mean cost of the stored energy, and every use block that the search
/// scheduled is worth scheduling.
pub proof fn lemma_plan_spans_chained(h: Horizon, carry_in: Carry, p: Plan)
    requires
        h.wf(),
        carry_in.wf(),
        plan_valid(h, carry_in, p),
    ensures
        chained(
            plan_spans(h, carry_in, p),
            h.len(),
            carry_in.level as int,
            plan_spans(h, carry_in, p).last().level_out as int,
        ),
        p.first.is_some() ==> uses_worthwhile(h, plan_spans(h, carry_in, p)),
        1 <= plan_spans(h, carry_in, p).len() <= 9,
{
    match p.first {
        None => {
            lemma_span_after_sound(h, BlockType::Use, 0, h.len(), carry_in);
            let b = baseline_span(h, carry_in);
            let s = seq![b];
            assert(s.len() == 1);
            assert(s[0] == b);
        },
        Some(a) => {
            lemma_leg_sound(h, 0, carry_in, a.seek as int, a.target as int, a.use_start as int);
            let none = Seq::<Span>::empty();
            assert(chained(none, 0, carry_in.level as int, carry_in.level as int));
            assert(uses_worthwhile(h, none));
            lemma_leg_onto_chained(h, none, a, 0, carry_in.level as int, carry_in.level as int);
            let one = leg_onto(none, a);
            match p.second {
                None => {
                    lemma_tail_chained(h, one, a.end(), carry_in.level as int, a.out());
                },
                Some(b) => {
                    lemma_leg_sound(
                        h,
                        a.end(),
                        a.out(),
                        b.seek as int,
                        b.target as int,
                        b.use_start as int,
                    );
                    lemma_leg_onto_chained(
                        h,
                        one,
                        b,
                        a.end(),
                        carry_in.level as int,
                        a.out().level as int,
                    );
                    lemma_tail_chained(
                        h,
                        leg_onto(one, b),
                        b.end(),
                        carry_in.level as int,
                        b.out(),
                    );
                },
            }
        },
    }
}

/// The hold block that fills the horizon completes the chain.
proof fn lemma_tail_chained(h: Horizon, spans: Seq<Span>, end: int, level_in: int, carry: Carry)
    requires
        h.wf(),
        carry.wf(),
        0 <= end <= h.len(),
        spans.len() >= 1,
        chained(spans, end, level_in, carry.level as int),
        uses_worthwhile(h, spans),
    ensures
        ({
            let all = if end < h.len() {
                spans.push(tail_span(h, end, carry))
            } else {
                spans
            };
            &&& chained(all, h.len(), level_in, all.last().level_out as int)
            &&& uses_worthwhile(h, all)
            &&& spans.len() <= all.len() <= spans.len() + 1
        }),
{
    if end < h.len() {
        lemma_span_after_sound(h, BlockType::Hold, end, h.len(), carry);
        let x = tail_span(h, end, carry);
        lemma_push_if_chained(h, spans, x, end, level_in, carry.level as int);
        assert(push_if(spans, x) == spans.push(x));
    }
}

/// Creates the block of using the battery all through the horizon, as a
/// backstop if the search finds nothing better.
pub fn create_base_blocks(h: &Horizon, carry_in: Carry) -> (r: Span)
    requires
        h.wf(),
        carry_in.wf(),
    ensures
        r == baseline_span(*h, carry_in),
{
    let all = update_for_pv(h, BlockType::Use, 0, h.tariffs.length, carry_in);
    Span {
        kind: all.kind,
        start: all.start,
        size: all.size,
        level_in: all.level_in,
        level_out: all.level_out,
        tariff_in: all.tariff_in,
        tariff_out: all.tariff_out,
        price: all.price,
        overflow: all.overflow,
        overflow_price: 0,
    }
}

/// Adds a block to the list unless it has no hours.
fn push_span(spans: &mut Vec<Span>, x: Span)
    ensures
        final(spans)@ == push_if(old(spans)@, x),
{
    if x.size > 0 {
        spans.push(x);
    }
}

/// Lists the blocks of a plan: blocks of no hours are left out, and a hold
/// block fills what is left of the horizon.
pub fn trim_and_tail(h: &Horizon, carry_in: Carry, p: &Plan) -> (spans: Vec<Span>)
    requires
        h.wf(),
        carry_in.wf(),
        plan_valid(*h, carry_in, *p),
    ensures
        spans@ == plan_spans(*h, carry_in, *p),
{
    let mut spans: Vec<Span> = Vec::new();
    match p.first {
        None => {
            spans.push(create_base_blocks(h, carry_in));
            assert(spans@ =~= seq![baseline_span(*h, carry_in)]);
        },
        Some(a) => {
            proof {
                lemma_leg_sound(
                    *h,
                    0,
                    carry_in,
                    a.seek as int,
                    a.target as int,
                    a.use_start as int,
                );
            }
            assert(spans@ =~= Seq::<Span>::empty());
            push_span(&mut spans, a.lead);
            push_span(&mut spans, a.charge);
            push_span(&mut spans, a.rest);
            push_span(&mut spans, a.usage);
            let last = match p.second {
                None => a,
                Some(b) => {
                    proof {
                        lemma_leg_sound(
                            *h,
                            a.end(),
                            a.out(),
                            b.seek as int,
                            b.target as int,
                            b.use_start as int,
                        );
                    }
                    push_span(&mut spans, b.lead);
                    push_span(&mut spans, b.charge);
                    push_span(&mut spans, b.rest);
                    push_span(&mut spans, b.usage);
                    b
                },
            };
            let end: usize = last.usage.start + last.usage.size;
            if end < h.tariffs.length {
                let t = update_for_pv(
                    h,
                    BlockType::Hold,
                    end,
                    h.tariffs.length,
                    last.usage.carry_out(),
                );
                spans.push(
                    Span {
                        kind: t.kind,
                        start: t.start,
                        size: t.size,
                        level_in: t.level_in,
                        level_out: t.level_out,
                        tariff_in: t.tariff_in,
                        tariff_out: t.tariff_out,
                        price: t.price,
                        overflow: t.overflow,
                        overflow_price: 0,
                    },
                );
            }
        },
    }
    spans
}

/// The block that stands for the span `s` of a plan for the horizon `h`,
/// with the identifier `id`: hours become points in time, levels become
/// states of charge, and a charge block keeps the tariffs it was priced with.
pub open spec fn block_of(h: Horizon, s: Span, id: int) -> Block {
    Block {
        block_id: id as usize,
        block_type: s.kind,
        start_time: (h.tariffs.start_time + s.start * HOUR_SECONDS) as u64,
        end_time: (h.tariffs.start_time + s.end() * HOUR_SECONDS - UNIT_SECONDS) as u64,
        soc_in: (MIN_SOC + s.level_in) as u8,
        soc_out: (MIN_SOC + s.level_out) as u8,
        charge_in: (s.level_in * h.battery.soc_wh) as u64,
        charge_out: (s.level_out * h.battery.soc_wh) as u64,
        charge_tariff_in: s.tariff_in,
        charge_tariff_out: s.tariff_out,
        price: s.price,
        overflow: s.overflow,
        overflow_price: s.overflow_price,
        true_soc_in: None,
        soc_wh: h.battery.soc_wh,
        status: Status::Waiting,
        tariffs: if s.kind == BlockType::Charge {
            Some(h.tariffs)
        } else {
            None
        },
    }
}

/// The blocks that stand for the spans of a plan, numbered in order.
pub open spec fn blocks_of(h: Horizon, spans: Seq<Span>) -> Seq<Block> {
    Seq::new(spans.len(), |i: int| block_of(h, spans[i], i))
}

/// The state of charge is within its range at both ends of the block, the
/// usable energy is what the state of charge stands for, and no block but a
/// charge block raises the mean cost of the stored energy.
pub open spec fn block_consistent(b: Block) -> bool {
    &&& MIN_SOC <= b.soc_in <= MAX_SOC
    &&& MIN_SOC <= b.soc_out <= MAX_SOC
    &&& b.charge_in == (b.soc_in - MIN_SOC) * b.soc_wh
    &&& b.charge_out == (b.soc_out - MIN_SOC) * b.soc_wh
    &&& b.start_time <= b.end_time
    &&& b.block_type != BlockType::Charge ==> b.charge_tariff_out <= b.charge_tariff_in
}

/// The blocks cover the time from `start` up to `end` without a gap or an
/// overlap, and each enters at the state of charge that the one before left at.
pub open spec fn blocks_tile(blocks: Seq<Block>, start: int, end: int) -> bool {
    &&& blocks.len() >= 1
    &&& blocks[0].start_time == start
    &&& blocks[blocks.len() - 1].end_time + UNIT_SECONDS == end
    &&& forall|i: int, j: int|
        0 <= i && j == i + 1 && j < blocks.len() ==> (#[trigger] blocks[i]).end_time
            + UNIT_SECONDS == (#[trigger] blocks[j]).start_time && blocks[i].soc_out
            == blocks[j].soc_in
}

/// The blocks of chained spans are consistent and tile the horizon.
pub proof fn lemma_blocks_sound(h: Horizon, spans: Seq<Span>, level_in: int, level: int)
    requires
        h.wf(),
        spans.len() >= 1,
        chained(spans, h.len(), level_in, level),
    ensures
        forall|i: int|
            0 <= i < spans.len() ==> block_consistent(#[trigger] blocks_of(h, spans)[i]),
        blocks_tile(
            blocks_of(h, spans),
            h.tariffs.start_time as int,
            h.tariffs.start_time + h.len() * HOUR_SECONDS,
        ),
        blocks_of(h, spans)[0].soc_in == MIN_SOC + level_in,
{
    let blocks = blocks_of(h, spans);
    let w = h.battery.soc_wh as int;
    assert forall|i: int| 0 <= i < spans.len() implies block_consistent(#[trigger] blocks[i]) by {
        let s = spans[i];
        assert(blocks[i] == block_of(h, s, i));
        assert(0 <= s.level_in * w <= 90 * 1_000_000) by (nonlinear_arith)
            requires
                0 <= s.level_in <= 90,
                1 <= w <= 1_000_000,
        ;
        assert(0 <= s.level_out * w <= 90 * 1_000_000) by (nonlinear_arith)
            requires
                0 <= s.level_out <= 90,
                1 <= w <= 1_000_000,
        ;
    }
    assert forall|i: int, j: int| 0 <= i && j == i + 1 && j < blocks.len() implies (
    #[trigger] blocks[i]).end_time + UNIT_SECONDS == (#[trigger] blocks[j]).start_time
        && blocks[i].soc_out == blocks[j].soc_in by {
        assert(spans[i].end() == spans[j].start);
        assert(spans[i].level_out == spans[j].level_in);
        assert(spans[i].size >= 1);
    }
    assert(spans[0].size >= 1);
    assert(spans[spans.len() - 1].size >= 1);
}

/// Number of blocks of the kind `kind` among the first `n` of `spans`.
pub open spec fn count_kind(spans: Seq<Span>, kind: BlockType, n: int) -> int
    decreases n,
{
    if n <= 0 {
        0
    } else if spans[n - 1].kind == kind {
        count_kind(spans, kind, n - 1) + 1
    } else {
        count_kind(spans, kind, n - 1)
    }
}

/// Counting over the blocks that were there before a block was added gives
/// what it gave.
proof fn lemma_count_prefix(spans: Seq<Span>, x: Span, kind: BlockType, n: int)
    requires
        0 <= n <= spans.len(),
    ensures
        count_kind(spans.push(x), kind, n) == count_kind(spans, kind, n),
    decreases n,
{
    if n > 0 {
        lemma_count_prefix(spans, x, kind, n - 1);
        assert(spans.push(x)[n - 1] == spans[n - 1]);
    }
}

/// A block that is added counts once for its kind, if it has hours.
proof fn lemma_count_push_if(spans: Seq<Span>, x: Span, kind: BlockType)
    ensures
        count_kind(push_if(spans, x), kind, push_if(spans, x).len() as int) <= count_kind(
            spans,
            kind,
            spans.len() as int,
        ) + (if x.kind == kind {
            1int
        } else {
            0int
        }),
{
    if x.size > 0 {
        lemma_count_prefix(spans, x, kind, spans.len() as int);
        assert(spans.push(x)[spans.len() as int] == x);
    }
}

/// The blocks of a sound pair count once for charging and once for using.
proof fn lemma_count_leg(h: Horizon, spans: Seq<Span>, a: Leg, kind: BlockType)
    requires
        a.sound(h),
        kind == BlockType::Charge || kind == BlockType::Use,
    ensures
        count_kind(leg_onto(spans, a), kind, leg_onto(spans, a).len() as int) <= count_kind(
            spans,
            kind,
            spans.len() as int,
        ) + 1,
{
    let with_lead = push_if(spans, a.lead);
    let with_charge = push_if(with_lead, a.charge);
    let with_rest = push_if(with_charge, a.rest);
    lemma_count_push_if(spans, a.lead, kind);
    lemma_count_push_if(with_lead, a.charge, kind);
    lemma_count_push_if(with_charge, a.rest, kind);
    lemma_count_push_if(with_rest, a.usage, kind);
}

/// A plan has at most two charge blocks and at most two use blocks.
pub proof fn law_two_pairs_at_most(h: Horizon, carry_in: Carry, p: Plan)
    requires
        h.wf(),
        carry_in.wf(),
        plan_valid(h, carry_in, p),
    ensures
        count_kind(
            plan_spans(h, carry_in, p),
            BlockType::Charge,
            plan_spans(h, carry_in, p).len() as int,
        ) <= 2,
        count_kind(
            plan_spans(h, carry_in, p),
            BlockType::Use,
            plan_spans(h, carry_in, p).len() as int,
        ) <= 2,
{
    let none = Seq::<Span>::empty();
    match p.first {
        None => {
            let all = seq![baseline_span(h, carry_in)];
            assert(count_kind(all, BlockType::Charge, 0) == 0);
            assert(count_kind(all, BlockType::Use, 0) == 0);
            assert(count_kind(all, BlockType::Charge, 1) <= 1);
            assert(count_kind(all, BlockType::Use, 1) <= 1);
        },
        Some(a) => {
            lemma_leg_sound(h, 0, carry_in, a.seek as int, a.target as int, a.use_start as int);
            lemma_count_leg(h, none, a, BlockType::Charge);
            lemma_count_leg(h, none, a, BlockType::Use);
            let one = leg_onto(none, a);
            let (all, last) = match p.second {
                None => (one, a),
                Some(b) => {
                    lemma_leg_sound(
                        h,
                        a.end(),
                        a.out(),
                        b.seek as int,
                        b.target as int,
                        b.use_start as int,
                    );
                    lemma_count_leg(h, one, b, BlockType::Charge);
                    lemma_count_leg(h, one, b, BlockType::Use);
                    (leg_onto(one, b), b)
                },
            };
            if last.end() < h.len() {
                let tail = tail_span(h, last.end(), last.out());
                lemma_count_prefix(all, tail, BlockType::Charge, all.len() as int);
                lemma_count_prefix(all, tail, BlockType::Use, all.len() as int);
                assert(all.push(tail)[all.len() as int] == tail);
                assert(tail.kind == BlockType::Hold);
            }
        },
    }
}

/// In every block of the schedule that a valid plan gives, the state of
/// charge lies from 10 to 100 at both ends, the usable energy at each end is
/// what the state of charge above 10 stands for, and, unless the block
/// charges from grid, the mean cost of the stored energy does not rise.
pub proof fn law_blocks_consistent(h: Horizon, carry_in: Carry, p: Plan)
    requires
        h.wf(),
        carry_in.wf(),
        plan_valid(h, carry_in, p),
    ensures
        forall|i: int|
            0 <= i < blocks_of(h, plan_spans(h, carry_in, p)).len() ==> block_consistent(
                #[trigger] blocks_of(h, plan_spans(h, carry_in, p))[i],
            ),
{
    lemma_plan_spans_chained(h, carry_in, p);
    let spans = plan_spans(h, carry_in, p);
    lemma_blocks_sound(h, spans, carry_in.level as int, spans.last().level_out as int);
}

/// The blocks of the schedule that a valid plan gives tile the horizon: the
/// first begins with it, each begins a unit after the last unit of the one
/// before and enters at the state of charge that the one before left at, and
/// the last ends with the horizon.
pub proof fn law_blocks_tile(h: Horizon, carry_in: Carry, p: Plan)
    requires
        h.wf(),
        carry_in.wf(),
        plan_valid(h, carry_in, p),
    ensures
        blocks_tile(
            blocks_of(h, plan_spans(h, carry_in, p)),
            h.tariffs.start_time as int,
            h.tariffs.start_time + h.len() * HOUR_SECONDS,
        ),
        blocks_of(h, plan_spans(h, carry_in, p))[0].soc_in == MIN_SOC + carry_in.level,
{
    lemma_plan_spans_chained(h, carry_in, p);
    let spans = plan_spans(h, carry_in, p);
    lemma_blocks_sound(h, spans, carry_in.level as int, spans.last().level_out as int);
}

/// Every use block of a plan that the search found is worth scheduling:
/// the mean buy tariff of its hours is above the mean cost of the stored
/// energy at its end divided by the charge efficiency, and is at least the
/// lowest tariff that is set for using. The plan of using the battery all
/// through, which is the one to beat, is not held to this.
pub proof fn law_use_blocks_worthwhile(h: Horizon, carry_in: Carry, p: Plan)
    requires
        h.wf(),
        carry_in.wf(),
        plan_valid(h, carry_in, p),
        p.first.is_some(),
    ensures
        uses_worthwhile(h, plan_spans(h, carry_in, p)),
{
    lemma_plan_spans_chained(h, carry_in, p);
}

/// Turns the spans of a plan into blocks: the hours, which the plan counts
/// from the start of the horizon, become points in time.
pub fn adjust_for_offset(h: &Horizon, spans: &Vec<Span>) -> (blocks: Vec<Block>)
    requires
        h.wf(),
        forall|i: int|
            0 <= i < spans.len() ==> {
                &&& 1 <= (#[trigger] spans[i]).size
                &&& spans[i].start + spans[i].size <= MAX_HOURS
                &&& spans[i].level_in <= MAX_LEVEL
                &&& spans[i].level_out <= MAX_LEVEL
            },
    ensures
        blocks@ == blocks_of(*h, spans@),
{
    let n = spans.len();
    let base: u64 = h.tariffs.start_time;
    let w: u64 = h.battery.soc_wh;
    let mut blocks: Vec<Block> = Vec::new();
    let mut i: usize = 0;
    while i < n
        invariant
            h.wf(),
            n == spans.len(),
            i <= n,
            base == h.tariffs.start_time,
            w == h.battery.soc_wh,
            blocks.len() == i,
            forall|k: int| 0 <= k < i ==> blocks@[k] == block_of(*h, spans@[k], k),
            forall|k: int|
                0 <= k < spans.len() ==> {
                    &&& 1 <= (#[trigger] spans[k]).size
                    &&& spans[k].start + spans[k].size <= MAX_HOURS
                    &&& spans[k].level_in <= MAX_LEVEL
                    &&& spans[k].level_out <= MAX_LEVEL
                },
        decreases n - i,
    {
        let s = spans[i];
        assert(1 <= spans[i as int].size);
        let level_in: u64 = s.level_in as u64;
        let level_out: u64 = s.level_out as u64;
        assert(level_in * w <= 90 * 1_000_000) by (nonlinear_arith)
            requires
                level_in <= 90,
                w <= 1_000_000,
        ;
        assert(level_out * w <= 90 * 1_000_000) by (nonlinear_arith)
            requires
                level_out <= 90,
                w <= 1_000_000,
        ;
        let first: u64 = s.start as u64;
        let after: u64 = (s.start + s.size) as u64;
        let block = Block {
            block_id: i,
            block_type: s.kind,
            start_time: base + first * HOUR_SECONDS,
            end_time: base + after * HOUR_SECONDS - UNIT_SECONDS,
            soc_in: MIN_SOC + s.level_in,
            soc_out: MIN_SOC + s.level_out,
            charge_in: level_in * w,
            charge_out: level_out * w,
            charge_tariff_in: s.tariff_in,
            charge_tariff_out: s.tariff_out,
            price: s.price,
            overflow: s.overflow,
            overflow_price: s.overflow_price,
            true_soc_in: None,
            soc_wh: w,
            status: Status::Waiting,
            tariffs: if s.kind == BlockType::Charge {
                Some(h.tariffs)
            } else {
                None
            },
        };
        blocks.push(block);
        i += 1;
    }
    assert(blocks@ =~= blocks_of(*h, spans@));
    blocks
}

} // verus!

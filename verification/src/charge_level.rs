//! The state of charge to charge the battery up to, so that it has room
//! left for what the panels are expected to give.

use vstd::prelude::*;

verus! {

/// Energy that one percent of state of charge stands for, in mWh: the
/// capacity of the battery, 16590 Wh, over a hundred percent.
pub const SOC_CAPACITY_MWH: u64 = 165_900;

/// Largest power, in W, that an estimate may hold.
pub const MAX_ESTIMATE: u64 = 100_000_000;

/// Most hours that a day's estimates may cover.
pub const MAX_ESTIMATES: usize = 48;

/// The room, in Wh, that an hour needs in the battery: where the panels
/// give more than the load takes, all of what they give beyond it; else
/// half of what they give beyond the lowest load, to allow for a load that
/// falls short of what is expected.
pub open spec fn spare_capacity(production: u64, load: u64, min_avg_load: u64) -> int {
    if production < load {
        if production > min_avg_load {
            (production - min_avg_load) / 2
        } else {
            0
        }
    } else {
        production - load
    }
}

/// Calculates the room that an hour needs in the battery.
pub fn calculate_spare_capacity(production: u64, load: u64, min_avg_load: u64) -> (r: u64)
    ensures
        r == spare_capacity(production, load, min_avg_load),
        r <= production,
{
    if production < load {
        if production > min_avg_load {
            (production - min_avg_load) / 2
        } else {
            0
        }
    } else {
        production - load
    }
}

/// Whether the hour `h` is among `selected`.
pub open spec fn selected_hour(selected: Seq<usize>, h: int) -> bool {
    exists|i: int| 0 <= i < selected.len() && selected[i] == h
}

/// The room that the selected hours among the first `n` need in the
/// battery, in Wh.
pub open spec fn spare_sum(
    selected: Seq<usize>,
    production: Seq<u64>,
    consumption: Seq<u64>,
    min_avg_load: u64,
    n: int,
) -> int
    decreases n,
{
    if n <= 0 {
        0
    } else {
        spare_sum(selected, production, consumption, min_avg_load, n - 1) + (if selected_hour(
            selected,
            n - 1,
        ) {
            spare_capacity(production[n - 1], consumption[n - 1], min_avg_load)
        } else {
            0
        })
    }
}

/// The state of charge, in percent, that leaves the room `spare`, in Wh:
/// a hundred less the room in percent, rounded down, and no less than
/// nothing.
pub open spec fn level_for(spare: int) -> int {
    let taken = (spare * 1000 + SOC_CAPACITY_MWH - 1) / (SOC_CAPACITY_MWH as int);
    if taken > 100 {
        0
    } else {
        100 - taken
    }
}

/// Whether the hour `h` is among `selected`.
fn contains(selected: &Vec<usize>, h: usize) -> (r: bool)
    ensures
        r == selected_hour(selected@, h as int),
{
    let n = selected.len();
    let mut i: usize = 0;
    while i < n
        invariant
            n == selected.len(),
            i <= n,
            forall|j: int| 0 <= j < i ==> selected@[j] != h,
        decreases n - i,
    {
        if selected[i] == h {
            return true;
        }
        i += 1;
    }
    false
}

/// Gets the charge level for a day and selected hours of it: the state of
/// charge, in percent, up to which the battery may be charged if it is to
/// take what the panels give beyond the load in those hours. `production`
/// and `consumption` hold the estimates per hour, in Wh; there is no result
/// where they differ in length, are longer than two days or hold a value
/// outside the limits.
pub fn get_charge_level(
    selected_hours: &Vec<usize>,
    production: &Vec<u64>,
    consumption: &Vec<u64>,
    min_avg_load: u64,
) -> (r: Option<u8>)
    ensures
        r.is_some() == (production@.len() == consumption@.len() && production@.len()
            <= MAX_ESTIMATES && forall|i: int|
            0 <= i < production@.len() ==> (#[trigger] production@[i]) <= MAX_ESTIMATE),
        r matches Some(level) ==> level == level_for(
            spare_sum(
                selected_hours@,
                production@,
                consumption@,
                min_avg_load,
                production@.len() as int,
            ),
        ),
{
    let n = production.len();
    if consumption.len() != n || n > MAX_ESTIMATES {
        return None;
    }
    let mut segment: u64 = 0;
    let mut h: usize = 0;
    while h < n
        invariant
            n == production.len(),
            n == consumption.len(),
            n <= MAX_ESTIMATES,
            h <= n,
            forall|i: int| 0 <= i < h ==> (#[trigger] production@[i]) <= MAX_ESTIMATE,
            segment == spare_sum(
                selected_hours@,
                production@,
                consumption@,
                min_avg_load,
                h as int,
            ),
            segment <= h * MAX_ESTIMATE,
        decreases n - h,
    {
        if production[h] > MAX_ESTIMATE {
            return None;
        }
        assert(h * MAX_ESTIMATE + MAX_ESTIMATE <= 48 * MAX_ESTIMATE) by (nonlinear_arith)
            requires
                h < 48,
        ;
        assert((h + 1) * MAX_ESTIMATE == h * MAX_ESTIMATE + MAX_ESTIMATE) by (nonlinear_arith);
        if contains(selected_hours, h) {
            segment = segment + calculate_spare_capacity(production[h], consumption[h], min_avg_load);
        }
        h += 1;
    }
    assert(segment <= 48 * MAX_ESTIMATE) by (nonlinear_arith)
        requires
            segment <= h * MAX_ESTIMATE,
            h <= 48,
    ;
    let taken: u64 = (segment * 1000 + SOC_CAPACITY_MWH - 1) / SOC_CAPACITY_MWH;
    if taken > 100 {
        Some(0)
    } else {
        Some((100 - taken) as u8)
    }
}

} // verus!

//! Mean cost of the energy held in the battery, followed over an observed
//! state-of-charge history.

use vstd::prelude::*;
use crate::scheduler::{Block, BlockType, Status};
use crate::scheduling::{block_updated, Schedule};
use crate::time::DAY_SECONDS;
use crate::units::{available_charge, soc_to_available_charge, MIN_SOC};

verus! {

/// Seconds after which a record of the last charge is too old to go by.
pub const LAST_CHARGE_MAX_AGE: u64 = 82_800;

/// What the last charge from grid left behind.
#[derive(Clone, Copy, Debug)]
pub struct LastCharge {
    /// When the charging ended.
    pub date_time_end: u64,
    pub soc_in: u8,
    pub soc_out: u8,
    pub charge_in: u64,
    pub charge_out: u64,
    pub charge_tariff_in: u64,
    pub charge_tariff_out: u64,
}

/// The record of the charging that `b` did, ended at `date_time`.
pub open spec fn last_charge_of(b: Block, date_time: u64) -> LastCharge {
    LastCharge {
        date_time_end: date_time,
        soc_in: b.soc_in,
        soc_out: b.soc_out,
        charge_in: b.charge_in,
        charge_out: b.charge_out,
        charge_tariff_in: b.charge_tariff_in,
        charge_tariff_out: b.charge_tariff_out,
    }
}

/// Copies what a charge block did into a record, stamped with the time at
/// which the charging ended.
pub fn get_last_charge(charge_block: &Block, date_time: u64) -> (r: LastCharge)
    ensures
        r == last_charge_of(*charge_block, date_time),
{
    LastCharge {
        date_time_end: date_time,
        soc_in: charge_block.soc_in,
        soc_out: charge_block.soc_out,
        charge_in: charge_block.charge_in,
        charge_out: charge_block.charge_out,
        charge_tariff_in: charge_block.charge_tariff_in,
        charge_tariff_out: charge_block.charge_tariff_out,
    }
}

/// Whether a record of the last charge can still be gone by at `now`: it is
/// no older than 23 hours.
pub fn last_charge_is_fresh(last_charge: &LastCharge, now: u64) -> (r: bool)
    ensures
        r == (now - last_charge.date_time_end <= LAST_CHARGE_MAX_AGE),
{
    now <= last_charge.date_time_end || now - last_charge.date_time_end <= LAST_CHARGE_MAX_AGE
}

/// Updates the record of the last charge where the active block is a charge
/// block that is running: the block is set to full at the state of charge
/// `soc`, and the record is made from it. Else the record stays as given.
pub fn update_last_charge(
    schedule: &Schedule,
    active_block: &mut Option<Block>,
    last_charge: Option<LastCharge>,
    soc: u8,
    date_time: u64,
) -> (r: Option<LastCharge>)
    requires
        schedule.battery.wf(),
    ensures
        match *old(active_block) {
            Some(b) if b.block_type == BlockType::Charge && b.status == Status::Started => {
                let done = block_updated(schedule.battery, b, Status::Full(soc, date_time));
                *final(active_block) == Some(done) && r == Some(last_charge_of(done, date_time))
            },
            _ => *final(active_block) == *old(active_block) && r == last_charge,
        },
{
    match *active_block {
        Some(b) => {
            if b.is_charge() {
                let mut done = b;
                schedule.update_block(&mut done, Status::Full(soc, date_time));
                *active_block = Some(done);
                Some(get_last_charge(&done, date_time))
            } else {
                last_charge
            }
        },
        None => last_charge,
    }
}

/// The time from which the history of the state of charge is needed to
/// follow the cost of the stored energy: from the end of the last charge
/// where there is a record of it, else from the start of the active block
/// where that entered with energy that had a cost, else not at all.
pub open spec fn history_from(active_block: Option<Block>, last_charge: Option<LastCharge>) -> Option<
    u64,
> {
    match last_charge {
        Some(l) => Some(l.date_time_end),
        None => match active_block {
            Some(b) if b.charge_tariff_in > 0 => Some(b.start_time),
            _ => None,
        },
    }
}

/// The mean cost of the stored energy that the history starts from.
pub open spec fn cost_before(active_block: Option<Block>, last_charge: Option<LastCharge>) -> u64 {
    match last_charge {
        Some(l) => l.charge_tariff_out,
        None => match active_block {
            Some(b) if b.charge_tariff_in > 0 => b.charge_tariff_in,
            _ => 0,
        },
    }
}

/// Decides from when the history of the state of charge has to be fetched.
pub fn soc_history_start(active_block: &Option<Block>, last_charge: &Option<LastCharge>) -> (r:
    Option<u64>)
    ensures
        r == history_from(*active_block, *last_charge),
{
    match last_charge {
        Some(l) => Some(l.date_time_end),
        None => match active_block {
            Some(b) => if b.charge_tariff_in > 0 {
                Some(b.start_time)
            } else {
                None
            },
            None => None,
        },
    }
}

/// The span of time to ask the history for, given where it should start and
/// the present time: no more than the last day, less a second.
pub fn history_window(start: u64, now: u64) -> (r: (u64, u64))
    ensures
        r.1 == now,
        r.0 == (if now - start >= DAY_SECONDS {
            (now - DAY_SECONDS + 1) as u64
        } else {
            start
        }),
{
    if now >= start && now - start >= DAY_SECONDS {
        (now - DAY_SECONDS + 1, now)
    } else {
        (start, now)
    }
}

/// The history of the state of charge as the cost is followed over: what
/// was fetched, if anything was asked for, and the present state at its end.
pub fn get_soc_history(fetched: Option<Vec<u8>>, soc_current: u8) -> (r: (Vec<u8>, u8))
    ensures
        r.1 == soc_current,
        r.0@ == (match fetched {
            Some(h) => h@,
            None => Seq::<u8>::empty(),
        }).push(soc_current),
{
    let mut history = match fetched {
        Some(h) => h,
        None => Vec::new(),
    };
    history.push(soc_current);
    (history, soc_current)
}

/// Works out what the battery holds and what it cost: the usable energy at
/// the present state of charge, in Wh, and the mean cost of it, followed
/// over the history of the state of charge since the last charge from grid.
/// `soc_history` is the history from [`soc_history_start`] on, with the
/// present state at its end; it is not looked at where no history is needed.
pub fn updated_charge_data(
    active_block: &Option<Block>,
    last_charge: &Option<LastCharge>,
    soc_history: &Vec<u8>,
    soc_current: u8,
    soc_wh: u64,
) -> (r: (u64, u64))
    ensures
        r.0 == available_charge(soc_current as int, soc_wh as int),
        r.1 == (if history_from(*active_block, *last_charge).is_some() {
            stored_charge_cost(soc_history@, cost_before(*active_block, *last_charge) as nat)
        } else {
            0
        }),
{
    let charge = soc_to_available_charge(soc_current, soc_wh);
    let tariff = match last_charge {
        Some(l) => update_stored_charge_cost(soc_history, l.charge_tariff_out),
        None => match active_block {
            Some(b) => if b.charge_tariff_in > 0 {
                update_stored_charge_cost(soc_history, b.charge_tariff_in)
            } else {
                0
            },
            None => 0,
        },
    };
    (charge, tariff)
}

/// Outcome of comparing a sample with one of its neighbours.
#[derive(Clone, Copy, PartialEq, Eq, Structural, Debug)]
pub enum Comp {
    /// There is no neighbour on that side.
    End,
    /// The sample is larger than the neighbour.
    Larger,
    /// The sample is smaller than the neighbour.
    Smaller,
    /// The sample equals the neighbour.
    Equal,
}

/// Kind of a turning point in a state-of-charge history.
#[derive(Clone, Copy, PartialEq, Eq, Structural, Debug)]
pub enum ValueType {
    Peak,
    Valley,
    NA,
}

/// A turning point of a state-of-charge history.
#[derive(Clone, Copy, PartialEq, Eq, Structural, Debug)]
pub struct Value {
    pub value_type: ValueType,
    pub value: u8,
}

/// The sample at `i` compared with the nearest sample to its left that
/// differs from it; `End` if all samples to the left are equal to it.
pub open spec fn left_dir(h: Seq<u8>, i: int) -> Comp
    decreases i,
{
    if i <= 0 {
        Comp::End
    } else if h[i] > h[i - 1] {
        Comp::Larger
    } else if h[i] < h[i - 1] {
        Comp::Smaller
    } else {
        left_dir(h, i - 1)
    }
}

/// The sample at `i` compared with its right neighbour.
pub open spec fn right_dir(h: Seq<u8>, i: int) -> Comp {
    if i + 1 >= h.len() {
        Comp::End
    } else if h[i] > h[i + 1] {
        Comp::Larger
    } else if h[i] < h[i + 1] {
        Comp::Smaller
    } else {
        Comp::Equal
    }
}

/// What the two comparisons make of a sample. A plateau counts once, at its
/// last sample. The sample that the history sets out from, with the samples
/// that repeat it, is no turning point: nothing is known of what led up to
/// it, so a rise from it is no rise out of a valley. The last sample closes
/// the rise or the fall that leads up to it.
pub open spec fn classify(left: Comp, right: Comp) -> ValueType {
    if right == Comp::Equal || left == Comp::End {
        ValueType::NA
    } else if left != Comp::Smaller && right != Comp::Smaller {
        ValueType::Peak
    } else if left != Comp::Larger && right != Comp::Larger {
        ValueType::Valley
    } else {
        ValueType::NA
    }
}

/// Kind of the sample at `i` of `h`.
pub open spec fn kind_at(h: Seq<u8>, i: int) -> ValueType {
    classify(left_dir(h, i), right_dir(h, i))
}

/// Turning points among the first `n` samples of `h`, in order.
pub open spec fn extremes_upto(h: Seq<u8>, n: int) -> Seq<Value>
    decreases n,
{
    if n <= 0 {
        Seq::empty()
    } else if kind_at(h, n - 1) == ValueType::NA {
        extremes_upto(h, n - 1)
    } else {
        extremes_upto(h, n - 1).push(Value { value_type: kind_at(h, n - 1), value: h[n - 1] })
    }
}

/// All turning points of `h`, in order.
pub open spec fn extremes(h: Seq<u8>) -> Seq<Value> {
    extremes_upto(h, h.len() as int)
}

/// Cost after the first `n` turning points of `e`: at every peak but the
/// first turning point, the cost is scaled by the preceding turning point's
/// value over the peak's value, rounded down.
pub open spec fn diluted_upto(e: Seq<Value>, cost: nat, n: int) -> nat
    decreases n,
{
    if n <= 0 {
        cost
    } else {
        let c = diluted_upto(e, cost, n - 1);
        if n >= 2 && e[n - 1].value_type == ValueType::Peak && e[n - 1].value > 0 {
            ((e[n - 2].value as nat) * c) / (e[n - 1].value as nat)
        } else {
            c
        }
    }
}

/// Some sample of `h` is at or below the battery floor.
pub open spec fn touches_floor(h: Seq<u8>) -> bool {
    exists|i: int| 0 <= i < h.len() && h[i] <= MIN_SOC
}

/// Mean cost per kWh of the stored energy after the history `h`, when it was
/// `cost` at the start of `h`.
pub open spec fn stored_charge_cost(h: Seq<u8>, cost: nat) -> nat {
    if touches_floor(h) {
        0
    } else {
        diluted_upto(extremes(h), cost, extremes(h).len() as int)
    }
}

/// Compares two samples.
fn compare(a: u8, b: u8) -> (c: Comp)
    ensures
        c == (if a > b {
            Comp::Larger
        } else if a < b {
            Comp::Smaller
        } else {
            Comp::Equal
        }),
{
    if a > b {
        Comp::Larger
    } else if a < b {
        Comp::Smaller
    } else {
        Comp::Equal
    }
}

/// Executable form of [`classify`].
fn classify_exec(left: Comp, right: Comp) -> (k: ValueType)
    ensures
        k == classify(left, right),
{
    if right == Comp::Equal || left == Comp::End {
        ValueType::NA
    } else if left != Comp::Smaller && right != Comp::Smaller {
        ValueType::Peak
    } else if left != Comp::Larger && right != Comp::Larger {
        ValueType::Valley
    } else {
        ValueType::NA
    }
}

/// Collects the turning points of a state-of-charge history.
pub fn peaks_and_valleys(soc_history: &Vec<u8>) -> (pv: Vec<Value>)
    ensures
        pv@ == extremes(soc_history@),
{
    let n = soc_history.len();
    let mut pv: Vec<Value> = Vec::new();
    let mut left: Comp = Comp::End;
    let mut s: usize = 0;
    while s < n
        invariant
            n == soc_history.len(),
            s <= n,
            pv@ == extremes_upto(soc_history@, s as int),
            s == 0 ==> left == Comp::End,
            s > 0 ==> left == left_dir(soc_history@, s - 1),
        decreases n - s,
    {
        if s > 0 {
            let c = compare(soc_history[s], soc_history[s - 1]);
            if c != Comp::Equal {
                left = c;
            }
        }
        let right = if s == n - 1 {
            Comp::End
        } else {
            compare(soc_history[s], soc_history[s + 1])
        };
        assert(left == left_dir(soc_history@, s as int));
        assert(right == right_dir(soc_history@, s as int));
        let kind = classify_exec(left, right);
        if kind != ValueType::NA {
            pv.push(Value { value_type: kind, value: soc_history[s] });
        }
        s += 1;
    }
    pv
}

/// Every peak of `e` but the first turning point follows a turning point
/// that is not above it.
pub open spec fn peaks_follow_lower(e: Seq<Value>) -> bool {
    forall|j: int, k: int|
        0 <= j && k == j + 1 && k < e.len() && (#[trigger] e[k]).value_type == ValueType::Peak
            ==> (#[trigger] e[j]).value <= e[k].value
}

/// Every turning point of `e` lies above the battery floor.
pub open spec fn above_floor(e: Seq<Value>) -> bool {
    forall|k: int| 0 <= k < e.len() ==> (#[trigger] e[k]).value > MIN_SOC
}

/// What the turning points among the first `n` samples say about sample `n`:
/// after a valley the history is rising, after a peak it is falling.
spec fn trend_holds(h: Seq<u8>, n: int) -> bool {
    let e = extremes_upto(h, n);
    n < h.len() && e.len() > 0 ==> {
        let last = e[e.len() - 1];
        &&& last.value_type == ValueType::Valley ==> left_dir(h, n) == Comp::Larger && last.value
            <= h[n]
        &&& last.value_type == ValueType::Peak ==> left_dir(h, n) == Comp::Smaller && last.value
            >= h[n]
    }
}

/// The comparison with the nearest sample that differs never says equal.
proof fn lemma_left_dir_resolved(h: Seq<u8>, i: int)
    ensures
        left_dir(h, i) != Comp::Equal,
    decreases i,
{
    if i > 0 && h[i] == h[i - 1] {
        lemma_left_dir_resolved(h, i - 1);
    }
}

/// How the comparison of sample `m` with its right neighbour shows up as
/// the left comparison of that neighbour.
proof fn lemma_step_dirs(h: Seq<u8>, m: int)
    requires
        0 <= m,
        m + 1 < h.len(),
    ensures
        right_dir(h, m) == Comp::Equal ==> h[m + 1] == h[m] && left_dir(h, m + 1) == left_dir(h, m),
        right_dir(h, m) == Comp::Larger ==> h[m + 1] < h[m] && left_dir(h, m + 1) == Comp::Smaller,
        right_dir(h, m) == Comp::Smaller ==> h[m + 1] > h[m] && left_dir(h, m + 1) == Comp::Larger,
        right_dir(h, m) != Comp::End,
{
}

/// What is known of the turning points among the first `n` samples.
spec fn shape_holds(h: Seq<u8>, n: int) -> bool {
    let e = extremes_upto(h, n);
    &&& peaks_follow_lower(e)
    &&& trend_holds(h, n)
    &&& forall|k: int| 0 <= k < e.len() ==> (#[trigger] e[k]).value_type != ValueType::NA
    &&& (!touches_floor(h) ==> above_floor(e))
    &&& e.len() <= n
}

/// The turning points among the first `n` samples have the shape that
/// [`shape_holds`] describes; by induction over the samples.
proof fn lemma_extremes_shape(h: Seq<u8>, n: int)
    requires
        0 <= n <= h.len(),
    ensures
        shape_holds(h, n),
    decreases n,
{
    if n > 0 {
        let m = n - 1;
        lemma_extremes_shape(h, m);
        lemma_left_dir_resolved(h, m);
        if n < h.len() {
            lemma_step_dirs(h, m);
        }
        let e = extremes_upto(h, m);
        let e2 = extremes_upto(h, n);
        let l = left_dir(h, m);
        let r = right_dir(h, m);
        let kind = classify(l, r);
        assert(kind == kind_at(h, m));
        assert(trend_holds(h, m));
        if kind == ValueType::NA {
            assert(e2 == e);
            assert(trend_holds(h, n)) by {
                if n < h.len() && e.len() > 0 {
                    let last = e[e.len() - 1];
                    assert(last.value_type != ValueType::NA);
                    if r == Comp::Equal {
                    } else if r == Comp::Larger {
                        assert(l == Comp::Smaller);
                    } else {
                        assert(r == Comp::Smaller);
                        assert(l == Comp::Larger);
                    }
                }
            }
        } else {
            let v = Value { value_type: kind, value: h[m] };
            assert(e2 == e.push(v));
            assert(e2.len() == e.len() + 1);
            assert(e2[e.len() as int] == v);
            assert forall|k: int| 0 <= k < e.len() implies e2[k] == e[k] by {}
            assert(peaks_follow_lower(e2)) by {
                assert forall|j: int, k: int|
                    0 <= j && k == j + 1 && k < e2.len() && (#[trigger] e2[k]).value_type
                        == ValueType::Peak implies (#[trigger] e2[j]).value <= e2[k].value by {
                    if k < e.len() {
                        assert(e2[k] == e[k]);
                        assert(e2[j] == e[j]);
                    } else {
                        let last = e[e.len() - 1];
                        assert(e2[j] == last);
                        assert(last.value_type != ValueType::NA);
                        assert(l != Comp::Smaller);
                    }
                }
            }
            assert(trend_holds(h, n)) by {
                if n < h.len() {
                    assert(e2[e2.len() - 1] == v);
                }
            }
            assert forall|k: int| 0 <= k < e2.len() implies (#[trigger] e2[k]).value_type
                != ValueType::NA by {
                if k < e.len() {
                    assert(e2[k] == e[k]);
                }
            }
            if !touches_floor(h) {
                assert(h[m] > MIN_SOC);
                assert forall|k: int| 0 <= k < e2.len() implies (#[trigger] e2[k]).value
                    > MIN_SOC by {
                    if k < e.len() {
                        assert(e2[k] == e[k]);
                    }
                }
            }
        }
    } else {
        assert(extremes_upto(h, n).len() == 0);
    }
}

/// The turning points of any history satisfy [`peaks_follow_lower`], and lie
/// above the battery floor when all samples do.
pub proof fn lemma_extremes_rise(h: Seq<u8>)
    ensures
        peaks_follow_lower(extremes(h)),
        !touches_floor(h) ==> above_floor(extremes(h)),
        extremes(h).len() <= h.len(),
{
    lemma_extremes_shape(h, h.len() as int);
    assert(shape_holds(h, h.len() as int));
}

/// Where peaks follow lower turning points, dilution never raises the cost.
pub proof fn lemma_dilution_never_raises(e: Seq<Value>, cost: nat, n: int)
    requires
        peaks_follow_lower(e),
        0 <= n <= e.len(),
    ensures
        diluted_upto(e, cost, n) <= cost,
    decreases n,
{
    if n > 0 {
        lemma_dilution_never_raises(e, cost, n - 1);
        let c = diluted_upto(e, cost, n - 1);
        if n >= 2 && e[n - 1].value_type == ValueType::Peak && e[n - 1].value > 0 {
            let a = e[n - 2].value as nat;
            let b = e[n - 1].value as nat;
            assert(e[n - 1].value_type == ValueType::Peak);
            assert(e[n - 2].value <= e[n - 1].value);
            assert((a * c) / b <= c) by (nonlinear_arith)
                requires
                    a <= b,
                    b > 0,
            ;
        }
    }
}

/// Checks that every peak but the first turning point follows a turning
/// point that is not above it.
pub fn peaks_rise(turning_points: &Vec<Value>) -> (r: bool)
    ensures
        r == peaks_follow_lower(turning_points@),
{
    let n = turning_points.len();
    let mut k: usize = 1;
    while k < n
        invariant
            n == turning_points.len(),
            1 <= k,
            forall|j: int, i: int|
                0 <= j && i == j + 1 && i < k && (#[trigger] turning_points@[i]).value_type
                    == ValueType::Peak ==> (#[trigger] turning_points@[j]).value
                    <= turning_points@[i].value,
        decreases n - k,
    {
        if turning_points[k].value_type == ValueType::Peak && turning_points[k - 1].value
            > turning_points[k].value {
            assert(!(turning_points@[k - 1].value <= turning_points@[k as int].value));
            return false;
        }
        k += 1;
    }
    true
}

/// Scales the cost down at every peak that follows another turning point.
pub fn dilute(turning_points: &Vec<Value>, cost: u64) -> (r: u64)
    requires
        peaks_follow_lower(turning_points@),
    ensures
        r == diluted_upto(turning_points@, cost as nat, turning_points@.len() as int),
        r <= cost,
{
    let n = turning_points.len();
    let mut c: u64 = cost;
    let mut i: usize = 0;
    while i < n
        invariant
            n == turning_points.len(),
            i <= n,
            peaks_follow_lower(turning_points@),
            c == diluted_upto(turning_points@, cost as nat, i as int),
            c <= cost,
        decreases n - i,
    {
        let v = turning_points[i];
        if i >= 1 && v.value_type == ValueType::Peak && v.value > 0 {
            let a: u128 = turning_points[i - 1].value as u128;
            let b: u128 = v.value as u128;
            assert(turning_points@[i as int].value_type == ValueType::Peak);
            assert(turning_points@[i - 1].value <= turning_points@[i as int].value);
            assert(((a as nat) * (c as nat)) / (b as nat) <= (c as nat)) by (nonlinear_arith)
                requires
                    a <= b,
                    b > 0,
            ;
            assert((a as nat) * (c as nat) <= 255 * 0xffff_ffff_ffff_ffff) by (nonlinear_arith)
                requires
                    a <= 255,
                    c <= 0xffff_ffff_ffff_ffff,
            ;
            let scaled: u128 = (a * (c as u128)) / b;
            c = scaled as u64;
        }
        i += 1;
    }
    c
}

/// Whether some sample is at or below the battery floor.
pub fn history_touches_floor(soc_history: &Vec<u8>) -> (b: bool)
    ensures
        b == touches_floor(soc_history@),
{
    let n = soc_history.len();
    let mut i: usize = 0;
    while i < n
        invariant
            n == soc_history.len(),
            i <= n,
            forall|j: int| 0 <= j < i ==> soc_history@[j] > MIN_SOC,
        decreases n - i,
    {
        if soc_history[i] <= MIN_SOC {
            return true;
        }
        i += 1;
    }
    false
}

/// New mean cost per kWh of the stored energy, given the state-of-charge
/// samples since the last charge from grid ended and the mean cost at that
/// time. Energy that the panels added since is free and dilutes the cost; a
/// battery that was down at its floor holds no paid energy any more.
///
/// Each peak that follows a valley multiplies the cost by the valley over
/// the peak, one peak after the other, each quotient rounded down. The
/// first sample is no valley, so a rise that the history sets out with
/// dilutes nothing, and a history that only rises leaves the cost as it
/// was. The samples 50, 70, 60, 80 have a peak at 70, a valley at 60 and a
/// peak at 80: a cost of 1 000 000 becomes 1 000 000 · 60 / 80 = 750 000.
pub fn update_stored_charge_cost(soc_history: &Vec<u8>, charge_tariff_in: u64) -> (r: u64)
    ensures
        r == stored_charge_cost(soc_history@, charge_tariff_in as nat),
        r <= charge_tariff_in,
        touches_floor(soc_history@) ==> r == 0,
        strictly_increasing(soc_history@) && starts_above_floor(soc_history@) ==> r
            == charge_tariff_in,
{
    if history_touches_floor(soc_history) {
        0
    } else {
        let pv = peaks_and_valleys(soc_history);
        proof {
            lemma_extremes_rise(soc_history@);
            if strictly_increasing(soc_history@) {
                law_rising_history_keeps_cost(soc_history@, charge_tariff_in as nat);
            }
        }
        dilute(&pv, charge_tariff_in)
    }
}

/// A history with a sample at or below the battery floor leaves no cost.
pub proof fn law_floor_resets_cost(h: Seq<u8>, cost: nat)
    requires
        touches_floor(h),
    ensures
        stored_charge_cost(h, cost) == 0,
{
}

/// The stored cost never rises over a history.
pub proof fn law_cost_never_rises(h: Seq<u8>, cost: nat)
    ensures
        stored_charge_cost(h, cost) <= cost,
{
    lemma_extremes_rise(h);
    lemma_dilution_never_raises(extremes(h), cost, extremes(h).len() as int);
}

/// The history `h` with the sample at `i` repeated right after it.
pub open spec fn with_repeat(h: Seq<u8>, i: int) -> Seq<u8> {
    h.insert(i + 1, h[i])
}

/// Repeating a sample leaves the comparisons to the left as they are.
proof fn lemma_repeat_left(h: Seq<u8>, i: int, j: int)
    requires
        0 <= i < h.len(),
        0 <= j <= h.len(),
    ensures
        left_dir(with_repeat(h, i), j) == (if j <= i {
            left_dir(h, j)
        } else {
            left_dir(h, j - 1)
        }),
    decreases j,
{
    let r = with_repeat(h, i);
    if j > 0 {
        lemma_repeat_left(h, i, j - 1);
        if j <= i {
            assert(r[j] == h[j]);
            assert(r[j - 1] == h[j - 1]);
        } else if j == i + 1 {
            assert(r[j] == h[i]);
            assert(r[j - 1] == h[i]);
        } else {
            assert(r[j] == h[j - 1]);
            assert(r[j - 1] == h[j - 2]);
        }
    }
}

/// Repeating a sample leaves the comparisons to the right as they are,
/// but for the sample that is repeated, which equals its repeat.
proof fn lemma_repeat_right(h: Seq<u8>, i: int, j: int)
    requires
        0 <= i < h.len(),
        0 <= j <= h.len(),
    ensures
        right_dir(with_repeat(h, i), j) == (if j < i {
            right_dir(h, j)
        } else if j == i {
            Comp::Equal
        } else {
            right_dir(h, j - 1)
        }),
{
    let r = with_repeat(h, i);
    assert(r.len() == h.len() + 1);
    if j < i {
        assert(r[j] == h[j]);
        assert(r[j + 1] == h[j + 1]);
    } else if j == i {
        assert(r[j] == h[i]);
        assert(r[j + 1] == h[i]);
    } else {
        assert(r[j] == h[j - 1]);
        if j + 1 < r.len() {
            assert(r[j + 1] == h[j]);
        }
    }
}

/// Repeating a sample leaves the turning points as they are.
proof fn lemma_repeat_extremes(h: Seq<u8>, i: int, n: int)
    requires
        0 <= i < h.len(),
        0 <= n <= h.len() + 1,
    ensures
        extremes_upto(with_repeat(h, i), n) == (if n <= i {
            extremes_upto(h, n)
        } else {
            extremes_upto(h, n - 1)
        }),
    decreases n,
{
    let r = with_repeat(h, i);
    if n > 0 {
        lemma_repeat_extremes(h, i, n - 1);
        let j = n - 1;
        lemma_repeat_left(h, i, j);
        lemma_repeat_right(h, i, j);
        if j < i {
            assert(r[j] == h[j]);
        } else if j == i {
            assert(kind_at(r, j) == ValueType::NA);
        } else {
            assert(r[j] == h[j - 1]);
            assert(kind_at(r, j) == kind_at(h, j - 1));
        }
    }
}

/// A sample that is repeated does not change the cost: a history with
/// neighbouring samples that are the same gives what it gives without them.
pub proof fn law_repeated_sample_changes_nothing(h: Seq<u8>, i: int, cost: nat)
    requires
        0 <= i < h.len(),
    ensures
        stored_charge_cost(with_repeat(h, i), cost) == stored_charge_cost(h, cost),
{
    let r = with_repeat(h, i);
    lemma_repeat_extremes(h, i, h.len() as int + 1);
    assert(extremes(r) == extremes(h));
    if touches_floor(h) {
        let k = choose|k: int| 0 <= k < h.len() && h[k] <= MIN_SOC;
        if k <= i {
            assert(r[k] == h[k]);
        } else {
            assert(r[k + 1] == h[k]);
        }
        assert(touches_floor(r));
    }
    if touches_floor(r) {
        let k = choose|k: int| 0 <= k < r.len() && r[k] <= MIN_SOC;
        if k <= i {
            assert(r[k] == h[k]);
        } else {
            assert(r[k] == h[k - 1]);
        }
        assert(touches_floor(h));
    }
}

/// Each sample of `h` is above the one before.
pub open spec fn strictly_increasing(h: Seq<u8>) -> bool {
    forall|i: int| 0 < i < h.len() ==> h[i - 1] < #[trigger] h[i]
}

/// The first sample of `h`, if it has one, is above the battery floor.
pub open spec fn starts_above_floor(h: Seq<u8>) -> bool {
    h.len() > 0 ==> h[0] > MIN_SOC
}

/// In a history that only rises no sample is below the first.
proof fn lemma_rising_from_first(h: Seq<u8>, i: int)
    requires
        strictly_increasing(h),
        0 <= i < h.len(),
    ensures
        h[0] <= h[i],
    decreases i,
{
    if i > 0 {
        lemma_rising_from_first(h, i - 1);
        assert(h[i - 1] < h[i]);
    }
}

/// A history that only rises has one turning point at most: the peak at
/// its last sample, where it has two samples or more.
proof fn lemma_rising_extremes(h: Seq<u8>, n: int)
    requires
        strictly_increasing(h),
        0 <= n <= h.len(),
    ensures
        n < h.len() || n <= 1 ==> extremes_upto(h, n) == Seq::<Value>::empty(),
        n == h.len() && n >= 2 ==> extremes_upto(h, n) == seq![
            Value { value_type: ValueType::Peak, value: h[n - 1] },
        ],
    decreases n,
{
    if n == 0 {
    } else if n == 1 {
        assert(extremes_upto(h, 0) == Seq::<Value>::empty());
        assert(kind_at(h, 0) == ValueType::NA);
    } else {
        lemma_rising_extremes(h, n - 1);
        assert(h[n - 2] < h[n - 1]);
        assert(left_dir(h, n - 1) == Comp::Larger);
        assert(extremes_upto(h, n - 1) == Seq::<Value>::empty());
        if n < h.len() {
            assert(h[n - 1] < h[n]);
            assert(kind_at(h, n - 1) == ValueType::NA);
        } else {
            let last = Value { value_type: ValueType::Peak, value: h[n - 1] };
            assert(kind_at(h, n - 1) == ValueType::Peak);
            assert(extremes_upto(h, n) == Seq::<Value>::empty().push(last));
            assert(Seq::<Value>::empty().push(last) =~= seq![last]);
        }
    }
}

/// A history that only rises, from a first sample above the battery floor,
/// leaves the cost as it was.
pub proof fn law_rising_history_keeps_cost(h: Seq<u8>, cost: nat)
    requires
        strictly_increasing(h),
        starts_above_floor(h),
    ensures
        stored_charge_cost(h, cost) == cost,
{
    let n = h.len() as int;
    assert(!touches_floor(h)) by {
        if touches_floor(h) {
            let i = choose|i: int| 0 <= i < h.len() && h[i] <= MIN_SOC;
            lemma_rising_from_first(h, i);
        }
    }
    lemma_rising_extremes(h, n);
    let e = extremes(h);
    assert(e.len() <= 1);
    assert(diluted_upto(e, cost, 0) == cost);
    if e.len() == 1 {
        assert(diluted_upto(e, cost, 1) == cost);
    }
}

/// The samples fall from the first to the second and rise from there to
/// the third.
pub open spec fn dips_once(h: Seq<u8>) -> bool {
    h.len() == 3 && h[0] > h[1] && h[1] < h[2]
}

/// Over a fall and the rise that follows it, above the floor, the cost is
/// diluted by the valley over the peak.
pub proof fn law_valley_dilutes(h: Seq<u8>, cost: nat)
    requires
        dips_once(h),
        !touches_floor(h),
    ensures
        stored_charge_cost(h, cost) == ((h[1] as nat) * cost) / (h[2] as nat),
{
    let valley = Value { value_type: ValueType::Valley, value: h[1] };
    let peak = Value { value_type: ValueType::Peak, value: h[2] };
    assert(extremes_upto(h, 0) == Seq::<Value>::empty());
    assert(kind_at(h, 0) == ValueType::NA);
    assert(extremes_upto(h, 1) == Seq::<Value>::empty());
    assert(left_dir(h, 1) == Comp::Smaller);
    assert(kind_at(h, 1) == ValueType::Valley);
    assert(extremes_upto(h, 2) == Seq::<Value>::empty().push(valley));
    assert(left_dir(h, 2) == Comp::Larger);
    assert(kind_at(h, 2) == ValueType::Peak);
    assert(extremes_upto(h, 3) == Seq::<Value>::empty().push(valley).push(peak));
    let e = extremes(h);
    assert(e =~= seq![valley, peak]);
    assert(h[2] > MIN_SOC);
    assert(diluted_upto(e, cost, 0) == cost);
    assert(diluted_upto(e, cost, 1) == cost);
    assert(diluted_upto(e, cost, 2) == ((e[0].value as nat) * cost) / (e[1].value as nat));
}

} // verus!

//! A schedule for one day from the tariffs alone: charge in the three
//! cheapest hours in a row, use the battery in the dear hours that follow.

use vstd::prelude::*;
use crate::scheduler::BlockType;

verus! {

/// Hours needed to charge the battery from its floor to full.
pub const CHARGE_LEN: usize = 3;

/// Hours that the battery can supply the house for.
pub const USE_LEN: usize = 5;

/// Hours of the day.
pub const DAY_HOURS: usize = 24;

/// Largest tariff that a schedule is made for.
pub const MAX_PRICE: u64 = 1_000_000_000_000;

/// Represents one block in a schedule.
#[derive(Debug)]
pub struct Block {
    pub block_type: BlockType,
    /// State of charge that the battery is not used below, if one is set.
    pub min_soc_on_grid: Option<u8>,
    /// State of charge that the battery is not charged above.
    pub max_soc: u8,
    /// First and last hour of the block.
    pub start_hour: usize,
    pub end_hour: usize,
    /// Mean of the tariffs of the block's hours, rounded down.
    pub mean_price: u64,
    /// The tariffs of the block's hours.
    pub hour_price: Vec<u64>,
}

/// Struct representing one day's block schedule.
#[derive(Debug)]
pub struct Schedule {
    pub blocks: Vec<Block>,
}

/// A span of hours of the day, from `start` to `end`, with the sum of its tariffs.
#[derive(Clone, Copy, PartialEq, Eq, Structural, Debug)]
pub struct Slot {
    pub kind: BlockType,
    pub start: usize,
    pub end: usize,
    pub sum: u64,
}

/// The tariffs are those of a day, each within the limit.
pub open spec fn tariffs_ok(t: Seq<u64>) -> bool {
    t.len() == DAY_HOURS && forall|h: int| 0 <= h < DAY_HOURS ==> (#[trigger] t[h]) <= MAX_PRICE
}

/// Sum of the tariffs of `len` hours from hour `start` on.
pub open spec fn window_sum(t: Seq<u64>, start: int, len: int) -> int
    decreases len,
{
    if len <= 0 {
        0
    } else {
        window_sum(t, start, len - 1) + t[start + len - 1]
    }
}

/// Last hour at which a window of `len` hours may start that is sought up
/// to hour `end`.
pub open spec fn last_start(len: int, end: int) -> int {
    if end < DAY_HOURS - len {
        end
    } else {
        DAY_HOURS - len
    }
}

/// `h` is the first of the hours from `start` to the last start at which
/// a window of `len` hours has the least sum of tariffs.
pub open spec fn cheapest_window(t: Seq<u64>, len: int, start: int, end: int, h: int) -> bool {
    &&& start <= h <= last_start(len, end)
    &&& forall|k: int|
        start <= k <= last_start(len, end) ==> #[trigger] window_sum(t, k, len) >= window_sum(
            t,
            h,
            len,
        )
    &&& forall|k: int| start <= k < h ==> #[trigger] window_sum(t, k, len) > window_sum(t, h, len)
}

/// The first of the hours from `start` to `k` at which a window of `len`
/// hours has the least sum of tariffs.
pub open spec fn cheapest_upto(t: Seq<u64>, len: int, start: int, k: int) -> int
    decreases k - start,
{
    if k <= start {
        start
    } else {
        let b = cheapest_upto(t, len, start, k - 1);
        if window_sum(t, k, len) < window_sum(t, b, len) {
            k
        } else {
            b
        }
    }
}

/// The charge block of `len` hours that starts from hour `start` to hour
/// `end`, if a block of that length starts in these hours.
pub open spec fn charge_slot(t: Seq<u64>, len: int, start: int, end: int) -> Option<Slot> {
    let last = last_start(len, end);
    if start > last {
        None
    } else {
        let h = cheapest_upto(t, len, start, last);
        Some(
            Slot {
                kind: BlockType::Charge,
                start: h as usize,
                end: (h + len - 1) as usize,
                sum: window_sum(t, h, len) as u64,
            },
        )
    }
}

/// Number of hours in a row from hour `h` on whose tariff is at least
/// `min_price`, counting no more than `left` and none after the day.
pub open spec fn run_len(t: Seq<u64>, min_price: u64, h: int, left: int) -> int
    decreases left,
{
    if h >= DAY_HOURS || left <= 0 || t[h] < min_price {
        0
    } else {
        1 + run_len(t, min_price, h + 1, left - 1)
    }
}

/// The use block that begins at hour `h`.
pub open spec fn use_slot(t: Seq<u64>, min_price: u64, max_len: int, h: int) -> Slot {
    let n = run_len(t, min_price, h, max_len);
    Slot {
        kind: BlockType::Use,
        start: h as usize,
        end: (h + n - 1) as usize,
        sum: window_sum(t, h, n) as u64,
    }
}

/// The use blocks that begin at one of the first `n` hours from `start` on:
/// one for each of these hours whose tariff is at least `min_price`.
pub open spec fn use_candidates(t: Seq<u64>, min_price: u64, max_len: int, start: int, n: int) -> Seq<
    Slot,
>
    decreases n,
{
    if n <= 0 {
        Seq::empty()
    } else {
        let h = start + n - 1;
        let before = use_candidates(t, min_price, max_len, start, n - 1);
        if h < DAY_HOURS && t[h] >= min_price {
            before.push(use_slot(t, min_price, max_len, h))
        } else {
            before
        }
    }
}

/// Number of hours of a slot.
pub open spec fn slot_len(s: Slot) -> int {
    s.end - s.start + 1
}

/// The mean tariff of `a` is above that of `b`.
pub open spec fn dearer(a: Slot, b: Slot) -> bool {
    a.sum * slot_len(b) > b.sum * slot_len(a)
}

/// The blocks kept so far, with the block `c` taken in: it is left out
/// where it lies within the last block kept; where it shares hours with the
/// last block without lying within it, it takes that block's place if its
/// mean tariff is above that block's, and is left out if not; else it is
/// added.
pub open spec fn keep_step(kept: Seq<Slot>, c: Slot) -> Seq<Slot> {
    if kept.len() == 0 {
        kept.push(c)
    } else {
        let last = kept[kept.len() - 1];
        if last.start <= c.start && c.end <= last.end {
            kept
        } else if c.start <= last.end && last.start <= c.end {
            if dearer(c, last) {
                kept.drop_last().push(c)
            } else {
                kept
            }
        } else {
            kept.push(c)
        }
    }
}

/// The first `n` blocks with those left out that lie within a block before
/// them or share hours with a dearer one.
pub open spec fn without_subsets(blocks: Seq<Slot>, n: int) -> Seq<Slot>
    decreases n,
{
    if n <= 0 {
        Seq::empty()
    } else {
        keep_step(without_subsets(blocks, n - 1), blocks[n - 1])
    }
}

/// The blocks kept so far, with the block `c` added unless it begins right
/// after the last block kept, which would leave no time to charge between them.
pub open spec fn gap_step(kept: Seq<Slot>, c: Slot) -> Seq<Slot> {
    if kept.len() > 0 && c.start == kept[kept.len() - 1].end + 1 {
        kept
    } else {
        kept.push(c)
    }
}

/// The first `n` blocks with those left out that begin right after the
/// block kept before them.
pub open spec fn without_adjacent(blocks: Seq<Slot>, n: int) -> Seq<Slot>
    decreases n,
{
    if n <= 0 {
        Seq::empty()
    } else {
        gap_step(without_adjacent(blocks, n - 1), blocks[n - 1])
    }
}

/// The use blocks that are kept of `blocks`.
pub open spec fn filtered(blocks: Seq<Slot>) -> Seq<Slot> {
    let first = without_subsets(blocks, blocks.len() as int);
    without_adjacent(first, first.len() as int)
}

/// The use blocks from hour `start` to hour `end`.
pub open spec fn use_blocks(t: Seq<u64>, min_price: u64, max_len: int, start: int, end: int) -> Seq<
    Slot,
> {
    filtered(use_candidates(t, min_price, max_len, start, end - start + 1))
}

/// Each slot lies within the day from hour `from` on, and has an hour.
pub open spec fn slots_within(slots: Seq<Slot>, from: int) -> bool {
    forall|i: int|
        0 <= i < slots.len() ==> from <= (#[trigger] slots[i]).start <= slots[i].end < DAY_HOURS
}

/// The sum of a window is no more than as many times the greatest tariff.
proof fn lemma_window_sum_bounded(t: Seq<u64>, start: int, len: int)
    requires
        tariffs_ok(t),
        0 <= start,
        0 <= len,
        start + len <= DAY_HOURS,
    ensures
        0 <= window_sum(t, start, len) <= len * MAX_PRICE,
    decreases len,
{
    if len > 0 {
        lemma_window_sum_bounded(t, start, len - 1);
        assert(t[start + len - 1] <= MAX_PRICE);
        assert((len - 1) * MAX_PRICE + MAX_PRICE == len * MAX_PRICE) by (nonlinear_arith);
    }
}

/// A run of dear hours is no longer than asked for, ends within the day,
/// and has an hour where its first hour is dear.
proof fn lemma_run_len_bounded(t: Seq<u64>, min_price: u64, h: int, left: int)
    requires
        tariffs_ok(t),
        0 <= h,
        0 <= left,
    ensures
        0 <= run_len(t, min_price, h, left) <= left,
        h + run_len(t, min_price, h, left) <= DAY_HOURS || run_len(t, min_price, h, left) == 0,
        h < DAY_HOURS && left > 0 && t[h] >= min_price ==> run_len(t, min_price, h, left) >= 1,
    decreases left,
{
    if !(h >= DAY_HOURS || left <= 0 || t[h] < min_price) {
        lemma_run_len_bounded(t, min_price, h + 1, left - 1);
    }
}

/// Sums up the tariffs of `len` hours from hour `start` on.
pub fn sum_window(tariffs: &Vec<u64>, start: usize, len: usize) -> (r: u64)
    requires
        tariffs_ok(tariffs@),
        start + len <= DAY_HOURS,
    ensures
        r == window_sum(tariffs@, start as int, len as int),
        r <= len * MAX_PRICE,
{
    let mut sum: u64 = 0;
    let mut i: usize = 0;
    while i < len
        invariant
            tariffs_ok(tariffs@),
            start + len <= DAY_HOURS,
            i <= len,
            sum == window_sum(tariffs@, start as int, i as int),
            sum <= i * MAX_PRICE,
        decreases len - i,
    {
        assert(tariffs@[start + i] <= MAX_PRICE);
        assert(i * MAX_PRICE + MAX_PRICE == (i + 1) * MAX_PRICE) by (nonlinear_arith);
        assert(i * MAX_PRICE <= 24 * MAX_PRICE) by (nonlinear_arith)
            requires
                i <= 24,
        ;
        sum = sum + tariffs[start + i];
        i += 1;
    }
    sum
}

/// Checks that the tariffs are those of a day, each within the limit.
pub fn check_tariffs(tariffs: &Vec<u64>) -> (r: bool)
    ensures
        r == tariffs_ok(tariffs@),
{
    if tariffs.len() != DAY_HOURS {
        return false;
    }
    let mut h: usize = 0;
    while h < DAY_HOURS
        invariant
            tariffs@.len() == DAY_HOURS,
            h <= DAY_HOURS,
            forall|k: int| 0 <= k < h ==> (#[trigger] tariffs@[k]) <= MAX_PRICE,
        decreases DAY_HOURS - h,
    {
        if tariffs[h] > MAX_PRICE {
            return false;
        }
        h += 1;
    }
    true
}

/// Returns the block of `block_len` hours with the lowest mean tariff that
/// starts from hour `start` to hour `end`; the first where there are
/// several. There is none where no block of that length starts in these hours.
pub fn get_charge_block(tariffs: &Vec<u64>, block_len: usize, start: usize, end: usize) -> (r:
    Option<Slot>)
    requires
        tariffs_ok(tariffs@),
        1 <= block_len <= DAY_HOURS,
    ensures
        r == charge_slot(tariffs@, block_len as int, start as int, end as int),
        r.is_some() == (start <= last_start(block_len as int, end as int)),
        r matches Some(s) ==> {
            &&& cheapest_window(
                tariffs@,
                block_len as int,
                start as int,
                end as int,
                s.start as int,
            )
            &&& s.kind == BlockType::Charge
            &&& s.end == s.start + block_len - 1
            &&& s.sum == window_sum(tariffs@, s.start as int, block_len as int)
        },
{
    let last: usize = if end < DAY_HOURS - block_len {
        end
    } else {
        DAY_HOURS - block_len
    };
    if start > last {
        return None;
    }
    let mut best: usize = start;
    let mut best_sum: u64 = sum_window(tariffs, start, block_len);
    let mut hour: usize = start + 1;
    while hour <= last
        invariant
            tariffs_ok(tariffs@),
            1 <= block_len <= DAY_HOURS,
            last == last_start(block_len as int, end as int),
            start <= best < hour <= last + 1,
            last <= DAY_HOURS - block_len,
            best == cheapest_upto(tariffs@, block_len as int, start as int, hour - 1),
            best_sum == window_sum(tariffs@, best as int, block_len as int),
            forall|k: int|
                start <= k < hour ==> #[trigger] window_sum(tariffs@, k, block_len as int)
                    >= best_sum,
            forall|k: int|
                start <= k < best ==> #[trigger] window_sum(tariffs@, k, block_len as int)
                    > best_sum,
        decreases last + 1 - hour,
    {
        let s = sum_window(tariffs, hour, block_len);
        if s < best_sum {
            best = hour;
            best_sum = s;
        }
        hour += 1;
    }
    Some(Slot { kind: BlockType::Charge, start: best, end: best + block_len - 1, sum: best_sum })
}

/// Counts the hours in a row from hour `h` on whose tariff is at least
/// `min_price`, no more than `max_len`.
pub fn count_run(tariffs: &Vec<u64>, min_price: u64, h: usize, max_len: usize) -> (r: usize)
    requires
        tariffs_ok(tariffs@),
    ensures
        r == run_len(tariffs@, min_price, h as int, max_len as int),
        r <= max_len,
        h + r <= DAY_HOURS || r == 0,
{
    let mut n: usize = 0;
    proof {
        lemma_run_len_bounded(tariffs@, min_price, h as int, max_len as int);
    }
    while n < max_len && h < DAY_HOURS && n < DAY_HOURS - h && tariffs[h + n] >= min_price
        invariant
            tariffs_ok(tariffs@),
            n <= max_len,
            h >= DAY_HOURS || n <= DAY_HOURS - h,
            run_len(tariffs@, min_price, h as int, max_len as int) == n + run_len(
                tariffs@,
                min_price,
                h + n,
                max_len - n,
            ),
        decreases max_len - n,
    {
        n += 1;
    }
    n
}

/// Lists the use blocks that begin from hour `start` to hour `end`, one for
/// each hour whose tariff is at least `min_price`.
pub fn list_use_candidates(
    tariffs: &Vec<u64>,
    min_price: u64,
    max_block_len: usize,
    start: usize,
    end: usize,
) -> (r: Vec<Slot>)
    requires
        tariffs_ok(tariffs@),
        1 <= max_block_len <= DAY_HOURS,
        end < DAY_HOURS,
    ensures
        r@ == use_candidates(
            tariffs@,
            min_price,
            max_block_len as int,
            start as int,
            end - start + 1,
        ),
        slots_within(r@, start as int),
        forall|i: int| 0 <= i < r@.len() ==> (#[trigger] r@[i]).sum <= 24 * MAX_PRICE,
{
    let mut r: Vec<Slot> = Vec::new();
    if start > end {
        return r;
    }
    let mut h: usize = start;
    while h <= end
        invariant
            tariffs_ok(tariffs@),
            1 <= max_block_len <= DAY_HOURS,
            start <= h <= end + 1,
            end < DAY_HOURS,
            r@ == use_candidates(
                tariffs@,
                min_price,
                max_block_len as int,
                start as int,
                h - start,
            ),
            slots_within(r@, start as int),
            forall|i: int| 0 <= i < r@.len() ==> (#[trigger] r@[i]).sum <= 24 * MAX_PRICE,
        decreases end + 1 - h,
    {
        if tariffs[h] >= min_price {
            proof {
                lemma_run_len_bounded(tariffs@, min_price, h as int, max_block_len as int);
            }
            let n = count_run(tariffs, min_price, h, max_block_len);
            let sum = sum_window(tariffs, h, n);
            let slot = Slot { kind: BlockType::Use, start: h, end: h + n - 1, sum };
            let ghost before = r@;
            r.push(slot);
            assert(sum <= 24 * MAX_PRICE) by (nonlinear_arith)
                requires
                    sum <= n * MAX_PRICE,
                    n <= 24,
            ;
            assert forall|i: int| 0 <= i < r@.len() implies start <= (#[trigger] r@[i]).start
                <= r@[i].end < DAY_HOURS && r@[i].sum <= 24 * MAX_PRICE by {
                if i < before.len() {
                    assert(r@[i] == before[i]);
                }
            }
        }
        h += 1;
    }
    r
}

/// Takes a block in among the blocks kept so far, by [`keep_step`].
fn keep(kept: &mut Vec<Slot>, c: Slot)
    requires
        slots_within(old(kept)@, 0),
        0 <= c.start <= c.end < DAY_HOURS,
        forall|i: int| 0 <= i < old(kept)@.len() ==> (#[trigger] old(kept)@[i]).sum <= 24 * MAX_PRICE,
        c.sum <= 24 * MAX_PRICE,
    ensures
        final(kept)@ == keep_step(old(kept)@, c),
{
    let n = kept.len();
    if n == 0 {
        kept.push(c);
        return;
    }
    let last = kept[n - 1];
    if last.start <= c.start && c.end <= last.end {
    } else if c.start <= last.end && last.start <= c.end {
        let c_len: u128 = (c.end - c.start + 1) as u128;
        let last_len: u128 = (last.end - last.start + 1) as u128;
        assert((c.sum as u128) * last_len <= 24 * MAX_PRICE * 24) by (nonlinear_arith)
            requires
                c.sum <= 24 * MAX_PRICE,
                last_len <= 24,
        ;
        assert((last.sum as u128) * c_len <= 24 * MAX_PRICE * 24) by (nonlinear_arith)
            requires
                last.sum <= 24 * MAX_PRICE,
                c_len <= 24,
        ;
        if (c.sum as u128) * last_len > (last.sum as u128) * c_len {
            kept.pop();
            kept.push(c);
        }
    } else {
        kept.push(c);
    }
}

/// Filters out blocks that lie within a block before them, blocks that
/// share hours with a dearer block, and blocks that begin right after the
/// block before them, which would leave no time to charge in between.
pub fn filter_out_subsets(blocks: &Vec<Slot>) -> (r: Vec<Slot>)
    requires
        slots_within(blocks@, 0),
        forall|i: int| 0 <= i < blocks@.len() ==> (#[trigger] blocks@[i]).sum <= 24 * MAX_PRICE,
    ensures
        r@ == filtered(blocks@),
{
    let mut first: Vec<Slot> = Vec::new();
    let n = blocks.len();
    let mut i: usize = 0;
    while i < n
        invariant
            n == blocks.len(),
            i <= n,
            slots_within(blocks@, 0),
            forall|k: int| 0 <= k < blocks@.len() ==> (#[trigger] blocks@[k]).sum <= 24 * MAX_PRICE,
            first@ == without_subsets(blocks@, i as int),
            slots_within(first@, 0),
            forall|k: int| 0 <= k < first@.len() ==> (#[trigger] first@[k]).sum <= 24 * MAX_PRICE,
        decreases n - i,
    {
        let c = blocks[i];
        assert(0 <= blocks@[i as int].start);
        assert(blocks@[i as int].sum <= 24 * MAX_PRICE);
        let ghost before = first@;
        keep(&mut first, c);
        proof {
            lemma_keep_step_within(before, c, 0);
        }
        i += 1;
    }
    let mut second: Vec<Slot> = Vec::new();
    let m = first.len();
    let mut j: usize = 0;
    while j < m
        invariant
            m == first.len(),
            j <= m,
            slots_within(first@, 0),
            second@ == without_adjacent(first@, j as int),
        decreases m - j,
    {
        let c = first[j];
        assert(0 <= first@[j as int].start);
        let k = second.len();
        if k > 0 && c.start == second[k - 1].end + 1 {
        } else {
            second.push(c);
        }
        j += 1;
    }
    second
}

/// Taking a block in leaves the blocks kept within the day from hour
/// `from` on, and their sums within the limit.
proof fn lemma_keep_step_within(kept: Seq<Slot>, c: Slot, from: int)
    requires
        slots_within(kept, from),
        from <= c.start <= c.end < DAY_HOURS,
        forall|k: int| 0 <= k < kept.len() ==> (#[trigger] kept[k]).sum <= 24 * MAX_PRICE,
        c.sum <= 24 * MAX_PRICE,
    ensures
        slots_within(keep_step(kept, c), from),
        forall|k: int|
            0 <= k < keep_step(kept, c).len() ==> (#[trigger] keep_step(kept, c)[k]).sum <= 24
                * MAX_PRICE,
{
    let r = keep_step(kept, c);
    assert forall|k: int| 0 <= k < r.len() implies from <= (#[trigger] r[k]).start <= r[k].end
        < DAY_HOURS && r[k].sum <= 24 * MAX_PRICE by {
        if k < kept.len() && r[k] == kept[k] {
        } else {
            assert(r[k] == c);
        }
    }
}

/// What is kept of blocks that lie within the day from hour `from` on lies
/// within the day from that hour on.
pub proof fn lemma_filtered_within(blocks: Seq<Slot>, from: int)
    requires
        slots_within(blocks, from),
        forall|k: int| 0 <= k < blocks.len() ==> (#[trigger] blocks[k]).sum <= 24 * MAX_PRICE,
    ensures
        slots_within(filtered(blocks), from),
{
    lemma_without_subsets_within(blocks, blocks.len() as int, from);
    let first = without_subsets(blocks, blocks.len() as int);
    lemma_without_adjacent_within(first, first.len() as int, from);
}

/// As [`lemma_filtered_within`], for the first pass of the filter.
proof fn lemma_without_subsets_within(blocks: Seq<Slot>, n: int, from: int)
    requires
        slots_within(blocks, from),
        forall|k: int| 0 <= k < blocks.len() ==> (#[trigger] blocks[k]).sum <= 24 * MAX_PRICE,
        0 <= n <= blocks.len(),
    ensures
        slots_within(without_subsets(blocks, n), from),
        forall|k: int|
            0 <= k < without_subsets(blocks, n).len() ==> (#[trigger] without_subsets(
                blocks,
                n,
            )[k]).sum <= 24 * MAX_PRICE,
    decreases n,
{
    if n > 0 {
        lemma_without_subsets_within(blocks, n - 1, from);
        assert(from <= blocks[n - 1].start);
        assert(blocks[n - 1].sum <= 24 * MAX_PRICE);
        lemma_keep_step_within(without_subsets(blocks, n - 1), blocks[n - 1], from);
    }
}

/// As [`lemma_filtered_within`], for the second pass of the filter.
proof fn lemma_without_adjacent_within(blocks: Seq<Slot>, n: int, from: int)
    requires
        slots_within(blocks, from),
        0 <= n <= blocks.len(),
    ensures
        slots_within(without_adjacent(blocks, n), from),
    decreases n,
{
    if n > 0 {
        lemma_without_adjacent_within(blocks, n - 1, from);
        let kept = without_adjacent(blocks, n - 1);
        let c = blocks[n - 1];
        assert(from <= c.start);
        let r = gap_step(kept, c);
        assert forall|k: int| 0 <= k < r.len() implies from <= (#[trigger] r[k]).start <= r[k].end
            < DAY_HOURS by {
            if k < kept.len() {
                assert(r[k] == kept[k]);
            } else {
                assert(r[k] == c);
            }
        }
    }
}

/// Returns the use blocks from hour `start` to hour `end`: blocks of
/// hours whose tariff is at least `min_price`, no longer than
/// `max_block_len`; of blocks that share hours the dearest, and no block
/// right after another.
pub fn get_use_block(
    tariffs: &Vec<u64>,
    min_price: u64,
    max_block_len: usize,
    start: usize,
    end: usize,
) -> (r: Vec<Slot>)
    requires
        tariffs_ok(tariffs@),
        1 <= max_block_len <= DAY_HOURS,
        end < DAY_HOURS,
    ensures
        r@ == use_blocks(tariffs@, min_price, max_block_len as int, start as int, end as int),
        slots_within(r@, start as int),
{
    let candidates = list_use_candidates(tariffs, min_price, max_block_len, start, end);
    proof {
        lemma_filtered_within(candidates@, start as int);
        assert forall|i: int| 0 <= i < candidates@.len() implies 0 <= (
        #[trigger] candidates@[i]).start <= candidates@[i].end < DAY_HOURS by {
            assert(start <= candidates@[i].start);
        }
    }
    filter_out_subsets(&candidates)
}

/// The least tariff that is at least the mean tariff of a charge block of
/// three hours with the sum `charge_sum`, divided by 0.8: what is used has
/// to be dearer than what was charged by so much, to make up for what is
/// lost on the way through the battery.
pub open spec fn min_use_price(charge_sum: int) -> int {
    (5 * charge_sum + 11) / 12
}

/// The use blocks that can follow the charge block `c`.
pub open spec fn uses_after(t: Seq<u64>, c: Slot) -> Seq<Slot> {
    use_blocks(t, min_use_price(c.sum as int) as u64, USE_LEN as int, c.end + 1, DAY_HOURS - 1)
}

/// The first charge block, sought in the thirds of the day in turn, that
/// has use blocks after it, with these; from the third `seg` on.
pub open spec fn first_pair(t: Seq<u64>, seg: int) -> Option<(Slot, Seq<Slot>)>
    decreases 3 - seg,
{
    if seg >= 3 || seg < 0 {
        None
    } else {
        match charge_slot(t, CHARGE_LEN as int, seg * 8, seg * 8 + 8 - CHARGE_LEN) {
            None => None,
            Some(c) => {
                let u = uses_after(t, c);
                if u.len() > 0 {
                    Some((c, u))
                } else {
                    first_pair(t, seg + 1)
                }
            },
        }
    }
}

/// The charge and use blocks that follow use blocks found before: a charge
/// block after the first of them, before the second if there is one, and
/// the first use block after that charge block; and so on while there are
/// use blocks, for no more than `fuel` rounds.
pub open spec fn more_pairs(t: Seq<u64>, uses: Seq<Slot>, fuel: nat) -> Seq<Slot>
    decreases fuel,
{
    if fuel == 0 || uses.len() == 0 {
        Seq::empty()
    } else {
        let end = if uses.len() == 1 {
            DAY_HOURS - 1
        } else {
            uses[1].start - 1
        };
        match charge_slot(t, CHARGE_LEN as int, uses[0].end + 1, end) {
            None => Seq::empty(),
            Some(c) => {
                let u = uses_after(t, c);
                if u.len() == 0 {
                    Seq::empty()
                } else {
                    seq![c, u[0]] + more_pairs(t, u, (fuel - 1) as nat)
                }
            },
        }
    }
}

/// The charge and use blocks of the day, in order.
pub open spec fn day_slots(t: Seq<u64>) -> Seq<Slot> {
    match first_pair(t, 0) {
        None => Seq::empty(),
        Some((c, u)) => seq![c, u[0]] + more_pairs(t, u, DAY_HOURS as nat),
    }
}

/// The hold block from hour `start` to hour `end`.
pub open spec fn hold_slot(t: Seq<u64>, start: int, end: int) -> Slot {
    Slot {
        kind: BlockType::Hold,
        start: start as usize,
        end: end as usize,
        sum: window_sum(t, start, end - start + 1) as u64,
    }
}

/// The first `n` of `slots`, each with a hold block before it where hours
/// are free between it and the block before.
pub open spec fn holds_before(t: Seq<u64>, slots: Seq<Slot>, n: int) -> Seq<Slot>
    decreases n,
{
    if n <= 0 {
        Seq::empty()
    } else {
        let before = holds_before(t, slots, n - 1);
        let next_start = if n == 1 {
            0
        } else {
            slots[n - 2].end + 1
        };
        let c = slots[n - 1];
        if c.start != next_start {
            before.push(hold_slot(t, next_start, c.start - 1)).push(c)
        } else {
            before.push(c)
        }
    }
}

/// The blocks of the day: the charge and use blocks, with hold blocks
/// wherever hours are free.
pub open spec fn with_holds(t: Seq<u64>, slots: Seq<Slot>) -> Seq<Slot> {
    if slots.len() == 0 {
        seq![hold_slot(t, 0, DAY_HOURS - 1)]
    } else {
        let body = holds_before(t, slots, slots.len() as int);
        let next_start = slots[slots.len() - 1].end + 1;
        if next_start != DAY_HOURS {
            body.push(hold_slot(t, next_start, DAY_HOURS - 1))
        } else {
            body
        }
    }
}

/// Each slot lies within the day and begins after the one before has ended.
pub open spec fn slots_ordered(slots: Seq<Slot>) -> bool {
    &&& slots_within(slots, 0)
    &&& forall|i: int, j: int|
        0 <= i && j == i + 1 && j < slots.len() ==> (#[trigger] slots[i]).end < (
        #[trigger] slots[j]).start
}

/// The slots cover the hours of the day in order, without a gap or an overlap.
pub open spec fn slots_tile(slots: Seq<Slot>) -> bool {
    &&& slots.len() >= 1
    &&& slots_within(slots, 0)
    &&& slots[0].start == 0
    &&& slots[slots.len() - 1].end == DAY_HOURS - 1
    &&& forall|i: int, j: int|
        0 <= i && j == i + 1 && j < slots.len() ==> (#[trigger] slots[i]).end + 1 == (
        #[trigger] slots[j]).start
}

/// `b` is the block that stands for the slot `s`: a use block lets the
/// battery down to its floor, every block lets it up to full.
pub open spec fn block_matches(b: Block, t: Seq<u64>, s: Slot) -> bool {
    &&& b.block_type == s.kind
    &&& b.min_soc_on_grid == (if s.kind == BlockType::Use {
        Some(10u8)
    } else {
        None
    })
    &&& b.max_soc == 100
    &&& b.start_hour == s.start
    &&& b.end_hour == s.end
    &&& b.mean_price == s.sum / (slot_len(s) as u64)
    &&& b.hour_price@ == t.subrange(s.start as int, s.end + 1)
}

/// Makes the hold block from hour `start` to hour `end`.
pub fn create_hold_block(tariffs: &Vec<u64>, start: usize, end: usize) -> (r: Slot)
    requires
        tariffs_ok(tariffs@),
        start <= end < DAY_HOURS,
    ensures
        r == hold_slot(tariffs@, start as int, end as int),
{
    Slot { kind: BlockType::Hold, start, end, sum: sum_window(tariffs, start, end - start + 1) }
}

/// Adds hold blocks wherever there is neither a charge block nor a use block.
pub fn add_hold_blocks(tariffs: &Vec<u64>, slots: &Vec<Slot>) -> (r: Vec<Slot>)
    requires
        tariffs_ok(tariffs@),
        slots_ordered(slots@),
    ensures
        r@ == with_holds(tariffs@, slots@),
        slots_tile(r@),
{
    let mut r: Vec<Slot> = Vec::new();
    let n = slots.len();
    if n == 0 {
        r.push(create_hold_block(tariffs, 0, DAY_HOURS - 1));
        assert(r@ =~= seq![hold_slot(tariffs@, 0, DAY_HOURS - 1)]);
        return r;
    }
    let mut next_start: usize = 0;
    let mut i: usize = 0;
    while i < n
        invariant
            tariffs_ok(tariffs@),
            slots_ordered(slots@),
            n == slots.len(),
            i <= n,
            r@ == holds_before(tariffs@, slots@, i as int),
            next_start == (if i == 0 {
                0
            } else {
                slots@[i - 1].end + 1
            }),
            slots_within(r@, 0),
            i == 0 ==> r@.len() == 0,
            i > 0 ==> r@.len() >= 1 && r@[0].start == 0 && r@[r@.len() - 1].end + 1 == next_start,
            forall|a: int, b: int|
                0 <= a && b == a + 1 && b < r@.len() ==> (#[trigger] r@[a]).end + 1 == (
                #[trigger] r@[b]).start,
        decreases n - i,
    {
        let c = slots[i];
        assert(0 <= slots@[i as int].start <= slots@[i as int].end < DAY_HOURS);
        if i > 0 {
            assert(slots@[i - 1].end < slots@[i as int].start);
        }
        let ghost before = r@;
        if c.start != next_start {
            r.push(create_hold_block(tariffs, next_start, c.start - 1));
        }
        r.push(c);
        proof {
            assert forall|k: int| 0 <= k < r@.len() implies 0 <= (#[trigger] r@[k]).start
                <= r@[k].end < DAY_HOURS by {
                if k < before.len() {
                    assert(r@[k] == before[k]);
                }
            }
            assert forall|a: int, b: int| 0 <= a && b == a + 1 && b < r@.len() implies (
            #[trigger] r@[a]).end + 1 == (#[trigger] r@[b]).start by {
                if b < before.len() {
                    assert(r@[a] == before[a]);
                    assert(r@[b] == before[b]);
                } else if a < before.len() {
                    assert(r@[a] == before[a]);
                }
            }
        }
        next_start = c.end + 1;
        i += 1;
    }
    if next_start != DAY_HOURS {
        let ghost before = r@;
        r.push(create_hold_block(tariffs, next_start, DAY_HOURS - 1));
        proof {
            assert forall|k: int| 0 <= k < r@.len() implies 0 <= (#[trigger] r@[k]).start
                <= r@[k].end < DAY_HOURS by {
                if k < before.len() {
                    assert(r@[k] == before[k]);
                }
            }
            assert forall|a: int, b: int| 0 <= a && b == a + 1 && b < r@.len() implies (
            #[trigger] r@[a]).end + 1 == (#[trigger] r@[b]).start by {
                if b < before.len() {
                    assert(r@[a] == before[a]);
                    assert(r@[b] == before[b]);
                } else {
                    assert(r@[a] == before[a]);
                }
            }
        }
    }
    r
}

/// Makes the block that stands for a slot.
pub fn make_block(tariffs: &Vec<u64>, s: Slot) -> (b: Block)
    requires
        tariffs_ok(tariffs@),
        s.start <= s.end < DAY_HOURS,
    ensures
        block_matches(b, tariffs@, s),
{
    let mut hour_price: Vec<u64> = Vec::new();
    let mut h: usize = s.start;
    while h <= s.end
        invariant
            tariffs@.len() == DAY_HOURS,
            s.start <= h <= s.end + 1,
            s.end < DAY_HOURS,
            hour_price@ == tariffs@.subrange(s.start as int, h as int),
        decreases s.end + 1 - h,
    {
        hour_price.push(tariffs[h]);
        assert(hour_price@ =~= tariffs@.subrange(s.start as int, h + 1));
        h += 1;
    }
    let len: u64 = (s.end - s.start + 1) as u64;
    Block {
        block_type: s.kind,
        min_soc_on_grid: if s.kind == BlockType::Use {
            Some(10)
        } else {
            None
        },
        max_soc: 100,
        start_hour: s.start,
        end_hour: s.end,
        mean_price: s.sum / len,
        hour_price,
    }
}

/// The least tariff of a use block that may follow a charge block.
fn use_price_after(charge: Slot) -> (r: u64)
    requires
        charge.sum <= 24 * MAX_PRICE,
    ensures
        r == min_use_price(charge.sum as int),
{
    (5 * charge.sum + 11) / 12
}

/// Finds the charge and use blocks of the day.
pub fn find_pairs(tariffs: &Vec<u64>) -> (r: Vec<Slot>)
    requires
        tariffs_ok(tariffs@),
    ensures
        r@ == day_slots(tariffs@),
        slots_ordered(r@),
{
    let mut slots: Vec<Slot> = Vec::new();
    let mut uses: Vec<Slot> = Vec::new();
    let mut seg: usize = 0;
    while seg < 3 && uses.len() == 0
        invariant
            tariffs_ok(tariffs@),
            seg <= 3,
            uses@.len() == 0 ==> slots@.len() == 0 && first_pair(tariffs@, 0) == first_pair(
                tariffs@,
                seg as int,
            ),
            uses@.len() > 0 ==> {
                &&& first_pair(tariffs@, 0) matches Some(p) && slots@ == seq![p.0, p.1[0]] && uses@
                    == p.1
                &&& slots_ordered(slots@)
                &&& slots_within(uses@, slots@[0].end + 1)
                &&& slots@[1] == uses@[0]
            },
        decreases 3 - seg, if uses.len() == 0 { 1int } else { 0int },
    {
        match get_charge_block(tariffs, CHARGE_LEN, seg * 8, seg * 8 + 8 - CHARGE_LEN) {
            Some(c) => {
                proof {
                    lemma_window_sum_bounded(tariffs@, c.start as int, CHARGE_LEN as int);
                }
                let found = get_use_block(
                    tariffs,
                    use_price_after(c),
                    USE_LEN,
                    c.end + 1,
                    DAY_HOURS - 1,
                );
                if found.len() > 0 {
                    slots.push(c);
                    slots.push(found[0]);
                    uses = found;
                    proof {
                        assert(slots@ =~= seq![c, uses@[0]]);
                        assert(c.end + 1 <= uses@[0].start);
                    }
                }
            },
            None => {},
        }
        seg += 1;
    }
    if uses.len() == 0 {
        proof {
            assert(seg >= 3);
            assert(slots@ =~= day_slots(tariffs@));
        }
        return slots;
    }
    let ghost head = slots@;
    let ghost first_uses = uses@;
    let mut fuel: usize = DAY_HOURS;
    while fuel > 0 && uses.len() > 0
        invariant
            tariffs_ok(tariffs@),
            fuel <= DAY_HOURS,
            slots_ordered(slots@),
            slots@.len() >= 2,
            uses@.len() > 0 ==> slots@[slots@.len() - 1] == uses@[0] && slots_within(
                uses@,
                slots@[slots@.len() - 2].end + 1,
            ),
            slots@ + more_pairs(tariffs@, uses@, fuel as nat) == head + more_pairs(
                tariffs@,
                first_uses,
                DAY_HOURS as nat,
            ),
        decreases fuel,
    {
        let ghost before = slots@;
        let ghost old_uses = uses@;
        assert(0 <= uses@[0].start <= uses@[0].end < DAY_HOURS);
        let end: usize = if uses.len() == 1 {
            DAY_HOURS - 1
        } else {
            assert(slots@[slots@.len() - 2].end + 1 <= uses@[1].start);
            uses[1].start - 1
        };
        let mut next: Vec<Slot> = Vec::new();
        match get_charge_block(tariffs, CHARGE_LEN, uses[0].end + 1, end) {
            Some(c) => {
                proof {
                    lemma_window_sum_bounded(tariffs@, c.start as int, CHARGE_LEN as int);
                }
                let found = get_use_block(
                    tariffs,
                    use_price_after(c),
                    USE_LEN,
                    c.end + 1,
                    DAY_HOURS - 1,
                );
                if found.len() > 0 {
                    slots.push(c);
                    slots.push(found[0]);
                    proof {
                        assert(slots@ =~= before + seq![c, found@[0]]);
                        assert(c.end + 1 <= found@[0].start);
                        assert forall|a: int, b: int|
                            0 <= a && b == a + 1 && b < slots@.len() implies (
                        #[trigger] slots@[a]).end < (#[trigger] slots@[b]).start by {
                            if b < before.len() {
                                assert(slots@[a] == before[a]);
                                assert(slots@[b] == before[b]);
                            } else if a < before.len() {
                                assert(slots@[a] == before[a]);
                            }
                        }
                        assert forall|k: int| 0 <= k < slots@.len() implies 0 <= (
                        #[trigger] slots@[k]).start <= slots@[k].end < DAY_HOURS by {
                            if k < before.len() {
                                assert(slots@[k] == before[k]);
                            }
                        }
                        assert(more_pairs(tariffs@, old_uses, fuel as nat) == seq![c, found@[0]]
                            + more_pairs(tariffs@, found@, (fuel - 1) as nat));
                        assert(slots@ + more_pairs(tariffs@, found@, (fuel - 1) as nat) =~= before
                            + more_pairs(tariffs@, old_uses, fuel as nat));
                    }
                    next = found;
                }
            },
            None => {},
        }
        proof {
            if next@.len() == 0 {
                assert(more_pairs(tariffs@, old_uses, fuel as nat) == Seq::<Slot>::empty());
                assert(more_pairs(tariffs@, next@, (fuel - 1) as nat) == Seq::<Slot>::empty());
                assert(slots@ == before);
            }
        }
        uses = next;
        fuel -= 1;
    }
    proof {
        assert(more_pairs(tariffs@, uses@, fuel as nat) == Seq::<Slot>::empty());
        assert(slots@ + Seq::<Slot>::empty() =~= slots@);
    }
    slots
}

/// Creates a schedule over one day from that day's tariffs, hour by hour:
/// charge blocks of three hours where the tariffs are lowest, each followed
/// by a use block of hours that are dear enough to make up for what is lost
/// on the way through the battery, and hold blocks in between. There is no
/// schedule where the tariffs are not those of 24 hours, or one of them is
/// outside the limit.
pub fn create_schedule(tariffs: &Vec<u64>) -> (r: Option<Schedule>)
    ensures
        r.is_some() == tariffs_ok(tariffs@),
        r matches Some(s) ==> {
            let slots = with_holds(tariffs@, day_slots(tariffs@));
            &&& slots_tile(slots)
            &&& s.blocks@.len() == slots.len()
            &&& forall|i: int|
                0 <= i < slots.len() ==> block_matches(#[trigger] s.blocks@[i], tariffs@, slots[i])
        },
{
    if !check_tariffs(tariffs) {
        return None;
    }
    let pairs = find_pairs(tariffs);
    let slots = add_hold_blocks(tariffs, &pairs);
    let mut blocks: Vec<Block> = Vec::new();
    let n = slots.len();
    let mut i: usize = 0;
    while i < n
        invariant
            tariffs_ok(tariffs@),
            slots_tile(slots@),
            n == slots.len(),
            i <= n,
            blocks@.len() == i,
            forall|k: int|
                0 <= k < i ==> block_matches(#[trigger] blocks@[k], tariffs@, slots@[k]),
        decreases n - i,
    {
        let s = slots[i];
        assert(0 <= slots@[i as int].start <= slots@[i as int].end < DAY_HOURS);
        blocks.push(make_block(tariffs, s));
        i += 1;
    }
    Some(Schedule { blocks })
}

} // verus!

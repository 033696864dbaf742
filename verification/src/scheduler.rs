//! Blocks of a daily schedule and the questions that the supervisor asks of
//! them while the day elapses.

use vstd::prelude::*;
use vstd::string::{StrSliceExecFns, StringExecFns};
use crate::calendar::{minute_stamp, parse_error_text, parse_minute_stamp};
use crate::errors::SchedulingError;
use crate::text::{
    align_right, decimal, decimal_text, hundredths, hundredths_text, right_aligned, two_digit_text,
    two_digits,
};
use crate::time::{truncate_to_unit, truncated, MAX_TIME, UNIT_SECONDS};
use crate::units::{
    available_charge, clamp_soc, clamped_soc, soc_to_available_charge, MAX_HOURS, MAX_TARIFF,
    MIN_SOC,
};

verus! {

/// Available block types.
#[derive(Clone, Copy, PartialEq, Eq, Structural, Debug)]
pub enum BlockType {
    /// Draw from the grid until a target state of charge is reached.
    Charge,
    /// Keep the battery at the state of charge it has.
    Hold,
    /// Let the battery cover the load of the house.
    Use,
}

/// Block status.
#[derive(Clone, Copy, PartialEq, Eq, Structural, Debug)]
pub enum Status {
    /// Planned, the inverter has not been set for it yet.
    Waiting,
    /// The inverter has been set for it.
    Started,
    /// A charge block that reached the given state of charge at the given time.
    Full(u8, u64),
    /// Setting the inverter for it failed.
    Error,
}

impl BlockType {
    /// The name of the type, as wide as the widest.
    pub fn label(&self) -> (r: &'static str)
        ensures
            r@ == match self {
                BlockType::Charge => "Charge"@,
                BlockType::Hold => "Hold  "@,
                BlockType::Use => "Use   "@,
            },
    {
        match self {
            BlockType::Charge => "Charge",
            BlockType::Hold => "Hold  ",
            BlockType::Use => "Use   ",
        }
    }
}

/// `n` written to base ten, with blanks before it up to three characters.
pub open spec fn padded(n: u8) -> Seq<char> {
    if n < 10 {
        "  "@ + decimal_text(n as nat)
    } else if n < 100 {
        " "@ + decimal_text(n as nat)
    } else {
        decimal_text(n as nat)
    }
}

impl Status {
    /// The name of the status, as wide as the widest; a full block shows
    /// the state of charge that was reached.
    pub fn label(&self) -> (r: String)
        ensures
            r@ == match self {
                Status::Waiting => "Waiting  "@,
                Status::Started => "Started  "@,
                Status::Full(soc, _) => "Full: "@ + padded(*soc),
                Status::Error => "Error    "@,
            },
    {
        match self {
            Status::Waiting => String::from_str("Waiting  "),
            Status::Started => String::from_str("Started  "),
            Status::Full(soc, _) => {
                String::from_str("Full: ").concat(pad_soc(*soc).as_str())
            },
            Status::Error => String::from_str("Error    "),
        }
    }
}

/// Hourly tariffs that a plan was priced with.
#[derive(Clone, Copy, Debug)]
pub struct Tariffs {
    /// Price of buying, per hour, in millionths of a currency unit per kWh.
    pub buy: [u64; 24],
    /// Price of selling, per hour, weighted by the sell priority.
    pub sell: [i64; 24],
    /// Number of hours that are filled in.
    pub length: usize,
    /// Start of the first hour.
    pub start_time: u64,
}

impl Tariffs {
    /// The tariffs are within the limits that the library computes with.
    pub open spec fn wf(&self) -> bool {
        &&& self.length <= MAX_HOURS
        &&& self.start_time <= MAX_TIME
        &&& forall|i: int| 0 <= i < self.length ==> (#[trigger] self.buy[i]) <= MAX_TARIFF
        &&& forall|i: int|
            0 <= i < self.length ==> -(MAX_TARIFF as int) <= (#[trigger] self.sell[i])
                <= MAX_TARIFF
    }
}

impl Tariffs {
    /// Checks the tariffs against the limits.
    pub fn is_valid(&self) -> (r: bool)
        ensures
            r == self.wf(),
    {
        if self.length > MAX_HOURS || self.start_time > MAX_TIME {
            return false;
        }
        let mut i: usize = 0;
        while i < self.length
            invariant
                self.length <= MAX_HOURS,
                i <= self.length,
                forall|j: int| 0 <= j < i ==> (#[trigger] self.buy[j]) <= MAX_TARIFF,
                forall|j: int|
                    0 <= j < i ==> -(MAX_TARIFF as int) <= (#[trigger] self.sell[j]) <= MAX_TARIFF,
            decreases self.length - i,
        {
            if self.buy[i] > MAX_TARIFF || self.sell[i] > MAX_TARIFF as i64 || self.sell[i] < -(
            MAX_TARIFF as i64) {
                return false;
            }
            i += 1;
        }
        true
    }
}

/// One block of a schedule: a mode of operation over a span of time.
#[derive(Clone, Copy, Debug)]
pub struct Block {
    /// Stable identifier within a schedule.
    pub block_id: usize,
    pub block_type: BlockType,
    /// Start of the first unit of the block.
    pub start_time: u64,
    /// Start of the last unit of the block.
    pub end_time: u64,
    /// State of charge at entry and exit, in percent.
    pub soc_in: u8,
    pub soc_out: u8,
    /// Usable energy at entry and exit, in Wh.
    pub charge_in: u64,
    pub charge_out: u64,
    /// Mean cost of the stored energy at entry and exit, per kWh.
    pub charge_tariff_in: u64,
    pub charge_tariff_out: u64,
    /// Money that the block moves, in billionths of a currency unit: what a
    /// charge block costs, what a use block saves.
    pub price: i64,
    /// Energy that did not fit in the battery, in Wh, and what it sells for.
    pub overflow: u64,
    pub overflow_price: i64,
    /// State of charge observed when the block started.
    pub true_soc_in: Option<u8>,
    /// Energy that one percent of state of charge stands for, in Wh.
    pub soc_wh: u64,
    pub status: Status,
    /// The tariffs that a charge block was priced with.
    pub tariffs: Option<Tariffs>,
}

/// Billionths of a currency unit in a hundredth.
pub const NANO_PER_CENT: i64 = 10_000_000;

/// Seconds from the start of the block to the end of its last unit.
pub open spec fn block_length(b: Block) -> int {
    if b.end_time >= b.start_time {
        b.end_time - b.start_time + UNIT_SECONDS
    } else {
        0
    }
}

/// The line that tells of a block: its type, the time of day at which it
/// starts, in UTC, its length in hours and minutes, the state of charge at
/// its ends and as observed, and what it costs, in currency units with two
/// decimals.
pub open spec fn block_text(b: Block) -> Seq<char> {
    let type_label = match b.block_type {
        BlockType::Charge => "Charge"@,
        BlockType::Hold => "Hold  "@,
        BlockType::Use => "Use   "@,
    };
    let of_day = b.start_time % 86_400;
    let length = block_length(b);
    type_label + " -> "@ + two_digit_text((of_day / 3600) as nat) + ":"@ + two_digit_text(
        ((of_day % 3600) / 60) as nat,
    ) + " - Length: "@ + two_digit_text((length / 3600) as nat) + ":"@ + two_digit_text(
        ((length % 3600) / 60) as nat,
    ) + ": SocIn "@ + padded(b.soc_in) + ", SocOut "@ + padded(b.soc_out) + ", True SocIn: "@
        + padded(
        match b.true_soc_in {
            Some(s) => s,
            None => 0,
        },
    ) + ", Cost "@ + right_aligned(hundredths_text(b.price as int / NANO_PER_CENT as int), 5)
        + " "@
}

/// A state of charge written to base ten, three characters wide.
pub fn pad_soc(soc: u8) -> (r: String)
    ensures
        r@ == padded(soc),
{
    let pad = if soc < 10 {
        "  "
    } else if soc < 100 {
        " "
    } else {
        ""
    };
    proof {
        reveal_strlit("");
    }
    let r = String::from_str(pad).concat(decimal(soc as u64).as_str());
    assert(r@ =~= padded(soc));
    r
}

impl Block {
    /// Writes the line that tells of the block.
    pub fn describe(&self) -> (r: String)
        ensures
            r@ == block_text(*self),
    {
        let of_day: u64 = self.start_time % 86_400;
        let length: u128 = if self.end_time >= self.start_time {
            (self.end_time - self.start_time) as u128 + UNIT_SECONDS as u128
        } else {
            0
        };
        let length_hours: u64 = (length / 3600) as u64;
        let length_minutes: u64 = ((length % 3600) / 60) as u64;
        let observed: u8 = match self.true_soc_in {
            Some(s) => s,
            None => 0,
        };
        let cents: i64 = if self.price >= 0 {
            self.price / NANO_PER_CENT
        } else {
            let q = (-(self.price + 1)) / NANO_PER_CENT;
            let rem = (-(self.price + 1)) % NANO_PER_CENT;
            assert((self.price as int) / (NANO_PER_CENT as int) == -q - 1) by (nonlinear_arith)
                requires
                    self.price < 0,
                    q == (-(self.price + 1)) / (10_000_000 as int),
                    rem == (-(self.price + 1)) % (10_000_000 as int),
            ;
            -q - 1
        };
        let cost = hundredths(cents);
        let r = String::from_str(self.block_type.label()).concat(" -> ").concat(
            two_digits(of_day / 3600).as_str(),
        ).concat(":").concat(two_digits((of_day % 3600) / 60).as_str()).concat(" - Length: ").concat(
            two_digits(length_hours).as_str(),
        ).concat(":").concat(two_digits(length_minutes).as_str()).concat(": SocIn ").concat(
            pad_soc(self.soc_in).as_str(),
        ).concat(", SocOut ").concat(pad_soc(self.soc_out).as_str()).concat(
            ", True SocIn: ",
        ).concat(pad_soc(observed).as_str()).concat(", Cost ").concat(
            align_right(cost.as_str(), 5).as_str(),
        ).concat(" ");
        assert(r@ =~= block_text(*self));
        r
    }

    /// The block's span holds the unit that starts at `t`.
    pub open spec fn covers(&self, t: int) -> bool {
        self.start_time <= t && t <= self.end_time
    }

    /// The block as it is after a new status was recorded for it.
    pub open spec fn with_status(self, status: Status, soc: Option<u8>) -> Block {
        let filled = match status {
            Status::Full(reached, _) if self.block_type == BlockType::Charge => Block {
                soc_out: clamped_soc(reached as int) as u8,
                charge_out: available_charge(reached as int, self.soc_wh as int) as u64,
                ..self
            },
            _ => self,
        };
        Block {
            status,
            true_soc_in: match soc {
                Some(s) => Some(s),
                None => self.true_soc_in,
            },
            ..filled
        }
    }

    /// Whether the block's span holds the unit that starts at `t`.
    pub fn is_covering(&self, t: u64) -> (r: bool)
        ensures
            r == self.covers(t as int),
    {
        self.start_time <= t && t <= self.end_time
    }

    /// Updates the status of the block. A charge block that is reported full
    /// leaves at the state of charge that was reached.
    pub fn update_block_status(&mut self, status: Status, soc: Option<u8>)
        ensures
            *final(self) == old(self).with_status(status, soc),
    {
        if self.block_type == BlockType::Charge {
            if let Status::Full(reached, _) = status {
                self.soc_out = clamp_soc(reached);
                self.charge_out = soc_to_available_charge(reached, self.soc_wh);
            }
        }
        self.status = status;
        if let Some(s) = soc {
            self.true_soc_in = Some(s);
        }
    }
}

/// The block that a schedule falls back on: use the battery, which is taken
/// to be at its floor.
pub open spec fn fallback_block(soc_wh: u64) -> Block {
    Block {
        block_id: 0,
        block_type: BlockType::Use,
        start_time: 0,
        end_time: 0,
        soc_in: MIN_SOC,
        soc_out: MIN_SOC,
        charge_in: 0,
        charge_out: 0,
        charge_tariff_in: 0,
        charge_tariff_out: 0,
        price: 0,
        overflow: 0,
        overflow_price: 0,
        true_soc_in: None,
        soc_wh,
        status: Status::Waiting,
        tariffs: None,
    }
}

/// Creates a fallback schedule of one block.
pub fn get_fallback_schedule(soc_wh: u64) -> (blocks: Vec<Block>)
    ensures
        blocks@ == seq![fallback_block(soc_wh)],
{
    let block = Block {
        block_id: 0,
        block_type: BlockType::Use,
        start_time: 0,
        end_time: 0,
        soc_in: MIN_SOC,
        soc_out: MIN_SOC,
        charge_in: 0,
        charge_out: 0,
        charge_tariff_in: 0,
        charge_tariff_out: 0,
        price: 0,
        overflow: 0,
        overflow_price: 0,
        true_soc_in: None,
        soc_wh,
        status: Status::Waiting,
        tariffs: None,
    };
    let mut blocks: Vec<Block> = Vec::new();
    blocks.push(block);
    assert(blocks@ =~= seq![fallback_block(soc_wh)]);
    blocks
}

/// `i` is the first position in `blocks` whose block covers `t`.
pub open spec fn first_covering(blocks: Seq<Block>, t: int, i: int) -> bool {
    &&& 0 <= i < blocks.len()
    &&& blocks[i].covers(t)
    &&& forall|j: int| 0 <= j < i ==> !(#[trigger] blocks[j]).covers(t)
}

/// No block of `blocks` covers `t`.
pub open spec fn none_covering(blocks: Seq<Block>, t: int) -> bool {
    forall|j: int| 0 <= j < blocks.len() ==> !(#[trigger] blocks[j]).covers(t)
}

/// `i` is the first position in `blocks` whose block has the identifier `id`.
pub open spec fn first_with_id(blocks: Seq<Block>, id: usize, i: int) -> bool {
    &&& 0 <= i < blocks.len()
    &&& blocks[i].block_id == id
    &&& forall|j: int| 0 <= j < i ==> (#[trigger] blocks[j]).block_id != id
}

/// No block of `blocks` has the identifier `id`.
pub open spec fn none_with_id(blocks: Seq<Block>, id: usize) -> bool {
    forall|j: int| 0 <= j < blocks.len() ==> (#[trigger] blocks[j]).block_id != id
}

/// Whether a new step of the schedule is due at the unit that starts at `t`,
/// judged by the block that was active so far: it is due when that block is
/// over, has not begun, or was never started.
pub open spec fn update_due(b: Block, t: int) -> bool {
    !b.covers(t) || b.status == Status::Waiting
}

/// Whether `b` is a charge block that is running at the unit that starts at `t`.
pub open spec fn charging_at(b: Block, t: int) -> bool {
    b.covers(t) && b.block_type == BlockType::Charge && b.status == Status::Started
}

/// Position of the first block that covers the unit that starts at `t`.
pub fn position_by_time(blocks: &Vec<Block>, t: u64) -> (r: Option<usize>)
    ensures
        match r {
            Some(i) => first_covering(blocks@, t as int, i as int),
            None => none_covering(blocks@, t as int),
        },
{
    let n = blocks.len();
    let mut i: usize = 0;
    while i < n
        invariant
            n == blocks.len(),
            i <= n,
            forall|j: int| 0 <= j < i ==> !(#[trigger] blocks@[j]).covers(t as int),
        decreases n - i,
    {
        if blocks[i].is_covering(t) {
            return Some(i);
        }
        i += 1;
    }
    None
}

/// Position of the first block with the identifier `block_id`.
pub fn position_by_id(blocks: &Vec<Block>, block_id: usize) -> (r: Option<usize>)
    ensures
        match r {
            Some(i) => first_with_id(blocks@, block_id, i as int),
            None => none_with_id(blocks@, block_id),
        },
{
    let n = blocks.len();
    let mut i: usize = 0;
    while i < n
        invariant
            n == blocks.len(),
            i <= n,
            forall|j: int| 0 <= j < i ==> (#[trigger] blocks@[j]).block_id != block_id,
        decreases n - i,
    {
        if blocks[i].block_id == block_id {
            return Some(i);
        }
        i += 1;
    }
    None
}

/// Number of characters in the name of a schedule file: two times of twelve
/// digits, each followed by an underscore, and `schedule.json`.
pub const SCHEDULE_NAME_LEN: usize = 39;

/// The two times that the name of a schedule file holds, if its shape is right.
pub open spec fn schedule_stamps(file_name: Seq<char>) -> Option<(Option<int>, Option<int>)> {
    if vstd::utf8::is_ascii_chars(file_name) && file_name.len() == SCHEDULE_NAME_LEN {
        Some((minute_stamp(file_name.subrange(0, 12)), minute_stamp(file_name.subrange(13, 25))))
    } else {
        None
    }
}

/// The span of time that a schedule file is for, by its name: from the
/// first time up to the second. There is none where the shape of the name
/// is wrong, a time cannot be read or lies before the epoch.
pub open spec fn schedule_span(file_name: Seq<char>) -> Option<(u64, u64)> {
    match schedule_stamps(file_name) {
        Some((Some(start), Some(end))) => if 0 <= start && 0 <= end {
            Some((start as u64, end as u64))
        } else {
            None
        },
        _ => None,
    }
}

/// Returns the start and the end of the span of time that a schedule file
/// is for, which the name of the file holds.
pub fn get_schedule_time(file_name: &str) -> (r: Result<(u64, u64), SchedulingError>)
    ensures
        match r {
            Ok(span) => schedule_span(file_name@) == Some(span),
            Err(e) => schedule_span(file_name@).is_none() && (schedule_stamps(file_name@).is_none()
                ==> e.0@ == "malformed schedule file name"@),
        },
{
    if !file_name.is_ascii() || file_name.unicode_len() != SCHEDULE_NAME_LEN {
        return Err(SchedulingError(String::from_str("malformed schedule file name")));
    }
    let start = match parse_minute_stamp(file_name.substring_ascii(0, 12)) {
        Ok(t) => t,
        Err(e) => {
            return Err(SchedulingError(parse_error_text(&e)));
        },
    };
    let end = match parse_minute_stamp(file_name.substring_ascii(13, 25)) {
        Ok(t) => t,
        Err(e) => {
            return Err(SchedulingError(parse_error_text(&e)));
        },
    };
    if start < 0 || end < 0 {
        return Err(SchedulingError(String::from_str("schedule time before the epoch")));
    }
    Ok((start as u64, end as u64))
}

/// The name at `j` gives a span of time, which does not hold `t`.
pub open spec fn passed_over(file_names: Seq<String>, t: u64, j: int) -> bool {
    schedule_span(file_names[j]@) matches Some(s) && !(s.0 <= t < s.1)
}

/// `i` is the position of the first name in `file_names` whose span holds
/// `t`, and every name before it gives a span.
pub open spec fn first_schedule_for(file_names: Seq<String>, t: u64, i: int) -> bool {
    &&& 0 <= i < file_names.len()
    &&& schedule_span(file_names[i]@) matches Some(s) && s.0 <= t < s.1
    &&& forall|j: int| 0 <= j < i ==> #[trigger] passed_over(file_names, t, j)
}

/// `i` is the position of the first name in `file_names` that gives no
/// span, and no name before it has a span that holds `t`.
pub open spec fn first_unreadable(file_names: Seq<String>, t: u64, i: int) -> bool {
    &&& 0 <= i < file_names.len()
    &&& schedule_span(file_names[i]@).is_none()
    &&& forall|j: int| 0 <= j < i ==> #[trigger] passed_over(file_names, t, j)
}

/// Finds the first schedule file that is for the time `date_time`, going
/// through the names of the files in their order. A name that gives no span
/// of time ends the search with its error, unless a file before it is for
/// the time.
pub fn find_schedule(file_names: &Vec<String>, date_time: u64) -> (r: Result<
    Option<usize>,
    SchedulingError,
>)
    ensures
        match r {
            Ok(Some(i)) => first_schedule_for(file_names@, date_time, i as int),
            Ok(None) => forall|j: int|
                0 <= j < file_names.len() ==> #[trigger] passed_over(file_names@, date_time, j),
            Err(e) => exists|i: int|
                #[trigger] first_unreadable(file_names@, date_time, i) && (schedule_stamps(
                    file_names@[i]@,
                ).is_none() ==> e.0@ == "malformed schedule file name"@),
        },
{
    let n = file_names.len();
    let mut i: usize = 0;
    while i < n
        invariant
            n == file_names.len(),
            i <= n,
            forall|j: int| 0 <= j < i ==> #[trigger] passed_over(file_names@, date_time, j),
        decreases n - i,
    {
        match get_schedule_time(file_names[i].as_str()) {
            Ok(s) => {
                if s.0 <= date_time && date_time < s.1 {
                    assert(first_schedule_for(file_names@, date_time, i as int));
                    return Ok(Some(i));
                }
                assert(passed_over(file_names@, date_time, i as int));
            },
            Err(e) => {
                assert(first_unreadable(file_names@, date_time, i as int));
                return Err(e);
            },
        }
        i += 1;
    }
    Ok(None)
}

/// `i` is the first position in `blocks` of a block that is in progress
/// and starts at `start_time`.
pub open spec fn first_in_progress(blocks: Seq<Block>, start_time: u64, i: int) -> bool {
    &&& 0 <= i < blocks.len()
    &&& blocks[i].start_time == start_time && blocks[i].status != Status::Waiting
    &&& forall|j: int|
        0 <= j < i ==> !((#[trigger] blocks[j]).start_time == start_time && blocks[j].status
            != Status::Waiting)
}

/// No block of `blocks` is in progress and starts at `start_time`.
pub open spec fn none_in_progress(blocks: Seq<Block>, start_time: u64) -> bool {
    forall|j: int|
        0 <= j < blocks.len() ==> !((#[trigger] blocks[j]).start_time == start_time
            && blocks[j].status != Status::Waiting)
}

/// The block `new` with the state of the block `old` that it takes the
/// place of: its status and the state of charge that was observed, and, for
/// a charge block that is full, what it left with.
pub open spec fn with_state_of(new: Block, old: Block) -> Block {
    let kept = Block { status: old.status, true_soc_in: old.true_soc_in, ..new };
    if old.status is Full && old.block_type == BlockType::Charge && new.block_type
        == BlockType::Charge {
        Block {
            soc_out: old.soc_out,
            charge_out: old.charge_out,
            charge_tariff_out: old.charge_tariff_out,
            ..kept
        }
    } else {
        kept
    }
}

/// `r` is the block `new` as it enters a schedule that takes the place of
/// the blocks `old`: with the state of the first block in progress that
/// starts when it starts, if there is one.
pub open spec fn merged_block(old: Seq<Block>, new: Block, r: Block) -> bool {
    if none_in_progress(old, new.start_time) {
        r == new
    } else {
        exists|i: int|
            first_in_progress(old, new.start_time, i) && r == with_state_of(
                new,
                #[trigger] old[i],
            )
    }
}

/// Finds the first block in progress that starts at `start_time`.
pub fn position_in_progress(blocks: &Vec<Block>, start_time: u64) -> (r: Option<usize>)
    ensures
        match r {
            Some(i) => first_in_progress(blocks@, start_time, i as int),
            None => none_in_progress(blocks@, start_time),
        },
{
    let n = blocks.len();
    let mut i: usize = 0;
    while i < n
        invariant
            n == blocks.len(),
            i <= n,
            forall|j: int|
                0 <= j < i ==> !((#[trigger] blocks@[j]).start_time == start_time
                    && blocks@[j].status != Status::Waiting),
        decreases n - i,
    {
        if blocks[i].start_time == start_time && blocks[i].status != Status::Waiting {
            return Some(i);
        }
        i += 1;
    }
    None
}

/// Merges new blocks with the blocks that they take the place of: a new
/// block that starts when a block in progress starts keeps the state of
/// that block.
pub fn merge_blocks(old: &Vec<Block>, new: Vec<Block>) -> (r: Vec<Block>)
    ensures
        r@.len() == new@.len(),
        forall|k: int| 0 <= k < new@.len() ==> merged_block(old@, new@[k], #[trigger] r@[k]),
{
    let mut r: Vec<Block> = Vec::new();
    let n = new.len();
    let mut k: usize = 0;
    while k < n
        invariant
            n == new@.len(),
            k <= n,
            r@.len() == k,
            forall|j: int| 0 <= j < k ==> merged_block(old@, new@[j], #[trigger] r@[j]),
        decreases n - k,
    {
        let b = new[k];
        let m = match position_in_progress(old, b.start_time) {
            Some(i) => {
                let o = old[i];
                let mut kept = b;
                kept.status = o.status;
                kept.true_soc_in = o.true_soc_in;
                let full = match o.status {
                    Status::Full(_, _) => true,
                    _ => false,
                };
                if full && o.block_type == BlockType::Charge && b.block_type == BlockType::Charge {
                    kept.soc_out = o.soc_out;
                    kept.charge_out = o.charge_out;
                    kept.charge_tariff_out = o.charge_tariff_out;
                }
                assert(kept == with_state_of(b, old@[i as int]));
                kept
            },
            None => b,
        };
        assert(merged_block(old@, new@[k as int], m));
        r.push(m);
        k += 1;
    }
    r
}

/// The block schedule from the current time on, as the supervisor follows it.
pub struct Schedule {
    /// Directory where schedule files are held.
    pub schedule_dir: String,
    /// Energy that one percent of state of charge stands for, in Wh.
    pub soc_wh: u64,
    pub blocks: Vec<Block>,
}

impl Schedule {
    /// Creates a new schedule from the blocks that exist, if any.
    pub fn new(schedule_dir: &str, soc_wh: u64, schedule_blocks: Option<Vec<Block>>) -> (s:
        Schedule)
        ensures
            s.schedule_dir@ == schedule_dir@,
            s.soc_wh == soc_wh,
            s.blocks@ == match schedule_blocks {
                Some(b) => b@,
                None => Seq::<Block>::empty(),
            },
    {
        let blocks = match schedule_blocks {
            Some(b) => b,
            None => Vec::new(),
        };
        Schedule { schedule_dir: schedule_dir.to_owned(), soc_wh, blocks }
    }

    /// Returns the identifier of the first block that is in force at
    /// `date_time`. Where there is none and `with_fallback` is set, the
    /// schedule is replaced by the fallback schedule, whose block is returned.
    pub fn get_block_by_time(&mut self, date_time: u64, with_fallback: bool) -> (r: Option<usize>)
        ensures
            final(self).schedule_dir == old(self).schedule_dir,
            final(self).soc_wh == old(self).soc_wh,
            ({
                let t = truncated(date_time as int, UNIT_SECONDS as int);
                let blocks = old(self).blocks@;
                if none_covering(blocks, t) {
                    if with_fallback {
                        r == Some(0usize) && final(self).blocks@ == seq![
                            fallback_block(old(self).soc_wh),
                        ]
                    } else {
                        r.is_none() && final(self).blocks@ == blocks
                    }
                } else {
                    &&& final(self).blocks@ == blocks
                    &&& r.is_some()
                    &&& exists|i: int|
                        first_covering(blocks, t, i) && r == Some((#[trigger] blocks[i]).block_id)
                }
            }),
    {
        let t = truncate_to_unit(date_time);
        match position_by_time(&self.blocks, t) {
            Some(i) => {
                Some(self.blocks[i].block_id)
            },
            None => {
                if with_fallback {
                    self.blocks = get_fallback_schedule(self.soc_wh);
                    Some(0)
                } else {
                    None
                }
            },
        }
    }

    /// Updates the schedule with the blocks of a new schedule, which take
    /// the place of the blocks so far; a new block that starts when a block
    /// in progress starts keeps the state of that block. The schedule is
    /// left as it is where there are no new blocks.
    pub fn update_scheduling(&mut self, loaded: Option<Vec<Block>>)
        ensures
            final(self).schedule_dir == old(self).schedule_dir,
            final(self).soc_wh == old(self).soc_wh,
            match loaded {
                Some(b) => final(self).blocks@.len() == b@.len() && forall|k: int|
                    0 <= k < b@.len() ==> merged_block(
                        old(self).blocks@,
                        b@[k],
                        #[trigger] final(self).blocks@[k],
                    ),
                None => final(self).blocks@ == old(self).blocks@,
            },
    {
        match loaded {
            Some(b) => {
                let merged = merge_blocks(&self.blocks, b);
                self.blocks = merged;
            },
            None => {},
        }
    }

    /// Returns the first block with the identifier `block_id`, to be changed
    /// in place.
    pub fn get_block_by_id(&mut self, block_id: usize) -> (r: Option<&mut Block>)
        ensures
            final(self).schedule_dir == old(self).schedule_dir,
            final(self).soc_wh == old(self).soc_wh,
            match r {
                Some(b) => exists|i: int|
                    {
                        &&& first_with_id(old(self).blocks@, block_id, i)
                        &&& *b == #[trigger] old(self).blocks@[i]
                        &&& final(self).blocks@ == old(self).blocks@.update(i, *final(b))
                    },
                None => none_with_id(old(self).blocks@, block_id) && final(self).blocks@ == old(
                    self,
                ).blocks@,
            },
    {
        match position_by_id(&self.blocks, block_id) {
            Some(i) => Some(&mut self.blocks[i]),
            None => None,
        }
    }

    /// Whether a new step of the schedule is due at `date_time`, judged by
    /// the first block with the identifier `block_id`; it is due where there
    /// is no such block.
    pub open spec fn update_time(&self, block_id: usize, date_time: u64) -> bool {
        let t = truncated(date_time as int, UNIT_SECONDS as int);
        none_with_id(self.blocks@, block_id) || exists|i: int|
            first_with_id(self.blocks@, block_id, i) && update_due(#[trigger] self.blocks@[i], t)
    }

    /// Whether the first block with the identifier `block_id` is a charge
    /// block that is running at `date_time`.
    pub open spec fn active_charging(&self, block_id: usize, date_time: u64) -> bool {
        let t = truncated(date_time as int, UNIT_SECONDS as int);
        exists|i: int|
            first_with_id(self.blocks@, block_id, i) && charging_at(#[trigger] self.blocks@[i], t)
    }

    /// Checks whether it is time to move to the next step of the schedule.
    pub fn is_update_time(&self, block_id: usize, date_time: u64) -> (r: bool)
        ensures
            r == self.update_time(block_id, date_time),
    {
        let t = truncate_to_unit(date_time);
        match position_by_id(&self.blocks, block_id) {
            Some(i) => {
                let b = &self.blocks[i];
                let r = !b.is_covering(t) || b.status == Status::Waiting;
                assert(first_with_id(self.blocks@, block_id, i as int));
                assert(r == update_due(self.blocks@[i as int], t as int));
                r
            },
            None => true,
        }
    }

    /// Checks whether the block is a charge block that is still charging.
    pub fn is_active_charging(&self, block_id: usize, date_time: u64) -> (r: bool)
        ensures
            r == self.active_charging(block_id, date_time),
    {
        let t = truncate_to_unit(date_time);
        match position_by_id(&self.blocks, block_id) {
            Some(i) => {
                let b = &self.blocks[i];
                let r = b.is_covering(t) && b.block_type == BlockType::Charge && b.status
                    == Status::Started;
                assert(first_with_id(self.blocks@, block_id, i as int));
                assert(r == charging_at(self.blocks@[i as int], t as int));
                r
            },
            None => false,
        }
    }
}

} // verus!

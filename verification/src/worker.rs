//! The decisions of the supervisor loop. The loop itself, which sleeps,
//! reads the clock and talks to the inverter, is not part of the library: it
//! asks these functions what to do and carries it out.

use vstd::prelude::*;
use crate::backup::{load_active_block, load_last_charge};
use crate::charge::{LastCharge, LAST_CHARGE_MAX_AGE};
use crate::scheduler::{
    first_covering, first_with_id, none_covering, none_with_id, position_by_id, position_by_time,
    Block, BlockType, Schedule, Status,
};
use crate::time::{truncate_to_unit, truncated, UNIT_SECONDS};
use crate::units::{clamp_soc, clamped_soc, MAX_SOC, MIN_SOC};

verus! {

/// Seconds between two ticks of the loop.
pub const TICK_SECONDS: u64 = 10;

/// Seconds that must have passed since the state of charge was last read
/// before it is read again for a running charge block.
pub const PROBE_SECONDS: u64 = 300;

/// Seconds that the inverter's clock may be off before it is set.
pub const CLOCK_SLACK_SECONDS: u64 = 60;

/// Hour of the day from which on the inverter's clock is checked, where
/// nothing else is configured.
pub const CLOCK_CHECK_HOUR: u32 = 15;

/// Attempts that a call to the inverter gets where nothing else is configured.
pub const DEFAULT_ATTEMPTS: u32 = 3;

/// Seconds to wait before a failed call to the inverter is tried again.
pub const RETRY_WAIT_SECONDS: u64 = 10;

/// Errors in a row after which the program gives up.
pub const MAX_ERRORS: u32 = 10;

/// Seconds without an error after which the count of errors starts anew.
pub const ERROR_WINDOW_SECONDS: u64 = 3600;

/// Seconds to wait after an error before the program starts over.
pub const ERROR_WAIT_SECONDS: u64 = 600;

/// The switches that hold for the whole process.
#[derive(Clone, Copy, PartialEq, Eq, Structural, Debug)]
pub struct Flags {
    /// Debug mode: nothing is written to the inverter.
    pub debug: bool,
    /// The day is run by hand: nothing is written to the inverter.
    pub manual_day: bool,
    /// Logging has been set up.
    pub logger_initialized: bool,
}

/// Check if we are in debug mode or on a manual day.
pub fn is_manual_debug(flags: &Flags) -> (r: bool)
    ensures
        r == (flags.debug || flags.manual_day),
{
    flags.debug || flags.manual_day
}

/// A call that changes the state of the inverter.
#[derive(Clone, Copy, PartialEq, Eq, Structural, Debug)]
pub enum InverterCommand {
    /// Switch off the charging from grid by time schedule.
    DisableChargeSchedule,
    /// Set the state of charge that the battery is not used below.
    SetMinSocOnGrid(u8),
    /// Set the state of charge that the battery is not charged above.
    SetMaxSoc(u8),
    /// Charge from grid from the first time up to the second.
    SetChargeSchedule(u64, u64),
}

/// What the supervisor does for a block: the status that the block gets,
/// and the calls to the inverter, in order.
pub struct Programming {
    pub status: Status,
    pub commands: Vec<InverterCommand>,
}

/// The calls that are made: none where the inverter is not to be touched.
pub open spec fn gated(on: bool, commands: Seq<InverterCommand>) -> Seq<InverterCommand> {
    if on {
        Seq::empty()
    } else {
        commands
    }
}

/// The calls that end charging from grid and keep the battery at `min_soc`
/// or above.
pub open spec fn rest_commands(min_soc: u8) -> Seq<InverterCommand> {
    seq![
        InverterCommand::DisableChargeSchedule,
        InverterCommand::SetMinSocOnGrid(min_soc),
        InverterCommand::SetMaxSoc(MAX_SOC),
    ]
}

/// The calls that start a charge block.
pub open spec fn charge_commands(b: Block) -> Seq<InverterCommand> {
    seq![
        InverterCommand::SetMaxSoc(clamped_soc(b.soc_out as int) as u8),
        InverterCommand::SetChargeSchedule(
            b.start_time,
            if b.end_time <= u64::MAX - UNIT_SECONDS {
                (b.end_time + UNIT_SECONDS) as u64
            } else {
                u64::MAX
            },
        ),
    ]
}

/// The status of a charge block when the inverter is set for it: full
/// already where the battery is at the target, else started.
pub open spec fn charge_status(b: Block, soc: u8, now: u64) -> Status {
    if soc >= b.soc_out {
        Status::Full(soc, now)
    } else {
        Status::Started
    }
}

/// The state of charge to hold the battery at: the state it has, but where
/// that is above the state that the block was planned to enter with, only
/// half of what is above, so that the surplus is shared between holding and
/// the use that follows; held to the range of the inverter.
pub open spec fn hold_soc(soc: u8, max_min_soc: u8) -> int {
    clamped_soc(
        if soc > max_min_soc {
            max_min_soc + (soc - max_min_soc) / 2
        } else {
            soc as int
        },
    )
}

/// The calls that are made: none where the inverter is not to be touched.
fn make_commands(on: bool, commands: Vec<InverterCommand>) -> (r: Vec<InverterCommand>)
    ensures
        r@ == gated(on, commands@),
{
    if on {
        Vec::new()
    } else {
        commands
    }
}

/// Lists the calls that end charging from grid and keep the battery at
/// `min_soc` or above.
fn rest_list(min_soc: u8) -> (r: Vec<InverterCommand>)
    ensures
        r@ == rest_commands(min_soc),
{
    let mut v: Vec<InverterCommand> = Vec::new();
    v.push(InverterCommand::DisableChargeSchedule);
    v.push(InverterCommand::SetMinSocOnGrid(min_soc));
    v.push(InverterCommand::SetMaxSoc(MAX_SOC));
    assert(v@ =~= rest_commands(min_soc));
    v
}

/// Sets a charge block. Where the battery is at the target already, the
/// charging from grid is switched off, the battery is kept at the target and
/// left free to take what the panels give, and the block is full. Else the
/// battery is allowed up to the target and the charge schedule is set for
/// the block's span.
pub fn set_charge(block: &Block, soc: u8, now: u64, manual_debug: bool) -> (r: Programming)
    ensures
        r.status == charge_status(*block, soc, now),
        r.commands@ == gated(
            manual_debug,
            if soc >= block.soc_out {
                rest_commands(clamped_soc(block.soc_out as int) as u8)
            } else {
                charge_commands(*block)
            },
        ),
{
    let target = clamp_soc(block.soc_out);
    if soc >= block.soc_out {
        Programming { status: Status::Full(soc, now), commands: make_commands(manual_debug, rest_list(target)) }
    } else {
        let end: u64 = if block.end_time <= u64::MAX - UNIT_SECONDS {
            block.end_time + UNIT_SECONDS
        } else {
            u64::MAX
        };
        let mut v: Vec<InverterCommand> = Vec::new();
        v.push(InverterCommand::SetMaxSoc(target));
        v.push(InverterCommand::SetChargeSchedule(block.start_time, end));
        assert(v@ =~= charge_commands(*block));
        Programming { status: Status::Started, commands: make_commands(manual_debug, v) }
    }
}

/// Sets a running charge block to full if the battery has reached
/// `max_soc`: the charging from grid is switched off, the battery is kept at
/// `max_soc` and left free to take what the panels give. Nothing is done
/// where the battery is below `max_soc`.
pub fn set_full_if_done(soc: u8, max_soc: u8, now: u64, manual_debug: bool) -> (r: Option<
    Programming,
>)
    ensures
        r.is_some() == (soc >= max_soc),
        r matches Some(p) ==> p.status == Status::Full(soc, now) && p.commands@ == gated(
            manual_debug,
            rest_commands(clamped_soc(max_soc as int) as u8),
        ),
        match r {
            Some(p) => full_transition(soc, max_soc, now, manual_debug) == Some(
                (p.status, p.commands@),
            ),
            None => full_transition(soc, max_soc, now, manual_debug).is_none(),
        },
{
    if soc >= max_soc {
        let min_soc = clamp_soc(max_soc);
        Some(
            Programming {
                status: Status::Full(soc, now),
                commands: make_commands(manual_debug, rest_list(min_soc)),
            },
        )
    } else {
        None
    }
}

/// Sets a hold block: the charging from grid is switched off, the battery
/// is kept at [`hold_soc`] or above and left free to take what the panels
/// give.
pub fn set_hold(soc: u8, max_min_soc: u8, manual_debug: bool) -> (r: Programming)
    ensures
        r.status == Status::Started,
        r.commands@ == gated(manual_debug, rest_commands(hold_soc(soc, max_min_soc) as u8)),
        MIN_SOC <= hold_soc(soc, max_min_soc) <= MAX_SOC,
{
    let wanted: u8 = if soc > max_min_soc {
        max_min_soc + (soc - max_min_soc) / 2
    } else {
        soc
    };
    let min_soc = clamp_soc(wanted);
    Programming { status: Status::Started, commands: make_commands(manual_debug, rest_list(min_soc)) }
}

/// Sets a use block: the charging from grid is switched off and the battery
/// is free to be used down to its floor and to take what the panels give.
pub fn set_use(manual_debug: bool) -> (r: Programming)
    ensures
        r.status == Status::Started,
        r.commands@ == gated(manual_debug, rest_commands(MIN_SOC)),
{
    Programming { status: Status::Started, commands: make_commands(manual_debug, rest_list(MIN_SOC)) }
}

/// What setting the inverter for `b` comes to when the battery is at `soc`.
pub open spec fn programmed(b: Block, soc: u8, now: u64, manual_debug: bool) -> (
    Status,
    Seq<InverterCommand>,
) {
    match b.block_type {
        BlockType::Charge => (
            charge_status(b, soc, now),
            gated(
                manual_debug,
                if soc >= b.soc_out {
                    rest_commands(clamped_soc(b.soc_out as int) as u8)
                } else {
                    charge_commands(b)
                },
            ),
        ),
        BlockType::Hold => (
            Status::Started,
            gated(manual_debug, rest_commands(hold_soc(soc, b.soc_in) as u8)),
        ),
        BlockType::Use => (Status::Started, gated(manual_debug, rest_commands(MIN_SOC))),
    }
}

/// Sets the inverter for the block that has become active, by its type.
pub fn program_block(block: &Block, soc: u8, now: u64, manual_debug: bool) -> (r: Programming)
    ensures
        (r.status, r.commands@) == programmed(*block, soc, now, manual_debug),
{
    match block.block_type {
        BlockType::Charge => set_charge(block, soc, now, manual_debug),
        BlockType::Hold => set_hold(soc, block.soc_in, manual_debug),
        BlockType::Use => set_use(manual_debug),
    }
}

/// What reading the state of charge `soc` for a running charge block that
/// aims at `max_soc` comes to: nothing while the battery is below the aim;
/// else the block is full, and the inverter is set to rest at the aim.
pub open spec fn full_transition(soc: u8, max_soc: u8, now: u64, manual_debug: bool) -> Option<
    (Status, Seq<InverterCommand>),
> {
    if soc >= max_soc {
        Some(
            (
                Status::Full(soc, now),
                gated(manual_debug, rest_commands(clamped_soc(max_soc as int) as u8)),
            ),
        )
    } else {
        None
    }
}

/// While the inverter is not to be touched, a charge block that has
/// reached its aim becomes full as it would otherwise, and no call is made.
pub proof fn law_gating_keeps_full_transition(soc: u8, max_soc: u8, now: u64)
    ensures
        full_transition(soc, max_soc, now, true).is_some() == full_transition(
            soc,
            max_soc,
            now,
            false,
        ).is_some(),
        full_transition(soc, max_soc, now, true) matches Some(t) ==> t.1 == Seq::<
            InverterCommand,
        >::empty() && t.0 == full_transition(soc, max_soc, now, false).unwrap().0,
{
}

/// While the inverter is not to be touched, no call is made, and the block
/// gets the status that it would get otherwise.
pub proof fn law_gating_keeps_status(b: Block, soc: u8, now: u64)
    ensures
        programmed(b, soc, now, true).1 == Seq::<InverterCommand>::empty(),
        programmed(b, soc, now, true).0 == programmed(b, soc, now, false).0,
{
}

/// What the loop keeps from tick to tick.
#[derive(Clone, Copy, Debug)]
pub struct Supervisor {
    /// The block that the inverter is set for.
    pub active_block: Option<usize>,
    /// When the state of charge was last read for a running charge block.
    pub charge_check_done: u64,
    /// The day of the year on which the inverter's clock was last checked.
    pub day_of_year: Option<u32>,
    /// Hour of the day from which on the inverter's clock is checked.
    pub clock_hour: u32,
    /// The state has changed since it was last written to disk.
    pub dirty: bool,
}

/// What a tick has to do.
#[derive(Clone, Copy, PartialEq, Eq, Structural, Debug)]
pub struct Tick {
    /// Read the inverter's clock and set it if it is off.
    pub check_clock: bool,
    /// Read the state of charge, and end the running charge block if the
    /// battery has reached its target.
    pub probe_charge: bool,
    /// Find the block for the present time, with a new schedule if need be,
    /// and set the inverter for it.
    pub update: bool,
    /// Write the state to disk, which failed at an earlier tick.
    pub persist: bool,
}

/// Whether the inverter's clock is due for its check: once a day, at the
/// first tick from the hour `clock_hour` on.
pub open spec fn clock_due(day_of_year: Option<u32>, clock_hour: u32, ordinal0: u32, hour: u32) -> bool {
    (day_of_year != Some(ordinal0)) && hour >= clock_hour
}

/// Whether the state of charge is due to be read for a running charge
/// block: at least five minutes have passed since it was last read.
pub open spec fn probe_due(charge_check_done: u64, now: u64) -> bool {
    now - charge_check_done >= PROBE_SECONDS
}

impl Supervisor {
    /// The state at the start of the loop.
    pub fn new(active_block: Option<usize>) -> (s: Supervisor)
        ensures
            s == (Supervisor {
                active_block,
                charge_check_done: 0,
                day_of_year: None,
                clock_hour: CLOCK_CHECK_HOUR,
                dirty: false,
            }),
    {
        Supervisor {
            active_block,
            charge_check_done: 0,
            day_of_year: None,
            clock_hour: CLOCK_CHECK_HOUR,
            dirty: false,
        }
    }

    /// Notes whether the state was written to disk: what could not be
    /// written is due at the next tick.
    pub fn persisted(&mut self, written: bool)
        ensures
            *final(self) == (Supervisor { dirty: !written, ..*old(self) }),
    {
        self.dirty = !written;
    }

    /// Decides what the tick at `now` has to do. `ordinal0` and `hour` are the
    /// day of the year and the hour of `now` on the local clock.
    pub fn plan_tick(&self, schedule: &Schedule, now: u64, ordinal0: u32, hour: u32) -> (t: Tick)
        ensures
            t.check_clock == clock_due(self.day_of_year, self.clock_hour, ordinal0, hour),
            t.probe_charge == (self.active_block matches Some(id) && schedule.active_charging(
                id,
                now,
            ) && probe_due(self.charge_check_done, now)),
            t.update == (self.active_block matches Some(id) ==> schedule.update_time(id, now)),
            t.persist == self.dirty,
    {
        let check_clock = match self.day_of_year {
            Some(d) => d != ordinal0 && hour >= self.clock_hour,
            None => hour >= self.clock_hour,
        };
        let probe_charge = match self.active_block {
            Some(id) => schedule.is_active_charging(id, now) && now >= self.charge_check_done && now
                - self.charge_check_done >= PROBE_SECONDS,
            None => false,
        };
        let update = match self.active_block {
            Some(id) => schedule.is_update_time(id, now),
            None => true,
        };
        Tick { check_clock, probe_charge, update, persist: self.dirty }
    }
}

/// What a schedule's blocks are after `status` was recorded for the first
/// block with the identifier `block_id`, with the state of charge that was
/// observed, if any.
pub open spec fn status_recorded(
    blocks: Seq<Block>,
    block_id: usize,
    status: Status,
    soc: Option<u8>,
    after: Seq<Block>,
) -> bool {
    if none_with_id(blocks, block_id) {
        after == blocks
    } else {
        exists|i: int|
            first_with_id(blocks, block_id, i) && after == blocks.update(
                i,
                (#[trigger] blocks[i]).with_status(status, soc),
            )
    }
}

/// Records a status for the first block with the identifier `block_id`.
/// Returns whether there is such a block.
pub fn record_status(schedule: &mut Schedule, block_id: usize, status: Status, soc: Option<u8>) -> (found:
    bool)
    ensures
        final(schedule).schedule_dir == old(schedule).schedule_dir,
        final(schedule).soc_wh == old(schedule).soc_wh,
        found == !none_with_id(old(schedule).blocks@, block_id),
        status_recorded(old(schedule).blocks@, block_id, status, soc, final(schedule).blocks@),
{
    match position_by_id(&schedule.blocks, block_id) {
        Some(i) => {
            let mut b = schedule.blocks[i];
            b.update_block_status(status, soc);
            schedule.blocks.set(i, b);
            true
        },
        None => false,
    }
}

impl Supervisor {
    /// Notes that the inverter's clock was checked on the day `ordinal0`.
    pub fn clock_checked(&mut self, ordinal0: u32)
        ensures
            *final(self) == (Supervisor { day_of_year: Some(ordinal0), ..*old(self) }),
    {
        self.day_of_year = Some(ordinal0);
    }

    /// Takes in the state of charge that was read for the running charge
    /// block: where the battery has reached the block's target, the block is
    /// full and the inverter is set to rest. The time of the reading is
    /// noted either way. Nothing else happens where there is no active block.
    pub fn charge_probed(&mut self, schedule: &mut Schedule, soc: u8, now: u64, manual_debug: bool) -> (r:
        Option<Programming>)
        ensures
            *final(self) == (Supervisor { charge_check_done: now, ..*old(self) }),
            final(schedule).schedule_dir == old(schedule).schedule_dir,
            final(schedule).soc_wh == old(schedule).soc_wh,
            match old(self).active_block {
                Some(id) if !none_with_id(old(schedule).blocks@, id) => exists|i: int|
                    {
                        &&& first_with_id(old(schedule).blocks@, id, i)
                        &&& {
                            let b = #[trigger] old(schedule).blocks@[i];
                            if soc >= b.soc_out {
                                &&& r matches Some(p) && p.status == Status::Full(soc, now)
                                    && p.commands@ == gated(
                                    manual_debug,
                                    rest_commands(clamped_soc(b.soc_out as int) as u8),
                                )
                                &&& final(schedule).blocks@ == old(schedule).blocks@.update(
                                    i,
                                    b.with_status(Status::Full(soc, now), None),
                                )
                            } else {
                                r.is_none() && final(schedule).blocks@ == old(schedule).blocks@
                            }
                        }
                    },
                _ => r.is_none() && final(schedule).blocks@ == old(schedule).blocks@,
            },
    {
        self.charge_check_done = now;
        let id = match self.active_block {
            Some(id) => id,
            None => {
                return None;
            },
        };
        match position_by_id(&schedule.blocks, id) {
            Some(i) => {
                let mut b = schedule.blocks[i];
                match set_full_if_done(soc, b.soc_out, now, manual_debug) {
                    Some(p) => {
                        b.update_block_status(p.status, None);
                        schedule.blocks.set(i, b);
                        Some(p)
                    },
                    None => None,
                }
            },
            None => None,
        }
    }

    /// Makes the block with the identifier `block_id` the active one, after
    /// the inverter was set for it: the block gets the status that the
    /// setting came to, and the state of charge that was observed.
    pub fn activated(&mut self, schedule: &mut Schedule, block_id: usize, status: Status, soc: u8)
        ensures
            *final(self) == (Supervisor { active_block: Some(block_id), ..*old(self) }),
            final(schedule).schedule_dir == old(schedule).schedule_dir,
            final(schedule).soc_wh == old(schedule).soc_wh,
            status_recorded(
                old(schedule).blocks@,
                block_id,
                status,
                Some(soc),
                final(schedule).blocks@,
            ),
    {
        record_status(schedule, block_id, status, Some(soc));
        self.active_block = Some(block_id);
    }

    /// Notes that setting the inverter for the block with the identifier
    /// `block_id` failed for good: the block is in error.
    pub fn failed(&self, schedule: &mut Schedule, block_id: usize)
        ensures
            final(schedule).schedule_dir == old(schedule).schedule_dir,
            final(schedule).soc_wh == old(schedule).soc_wh,
            status_recorded(
                old(schedule).blocks@,
                block_id,
                Status::Error,
                None,
                final(schedule).blocks@,
            ),
    {
        record_status(schedule, block_id, Status::Error, None);
    }
}

/// What the update step of a tick does next.
#[derive(Clone, Copy, PartialEq, Eq, Structural, Debug)]
pub enum UpdateStep {
    /// Set the inverter for the block with this identifier, which is in
    /// force now.
    Program(usize),
    /// Look among the schedules that were kept for one that holds the
    /// present time, and take its blocks.
    Load,
    /// Make a new schedule for the hours ahead.
    Plan,
    /// Go on with the fallback schedule.
    Fallback,
}

/// `r` is what the update step at `now` does next, given the blocks of the
/// schedule and what was tried already in this tick: where a block is in
/// force, the first such block is programmed; else a kept schedule is
/// looked for, then a new one is made, and when neither gave a block for
/// the present time, the fallback schedule takes over.
pub open spec fn next_step(blocks: Seq<Block>, now: u64, loaded: bool, planned: bool, r: UpdateStep) -> bool {
    let t = truncated(now as int, UNIT_SECONDS as int);
    if !none_covering(blocks, t) {
        exists|i: int| first_covering(blocks, t, i) && r == UpdateStep::Program((#[trigger] blocks[i]).block_id)
    } else if !loaded {
        r == UpdateStep::Load
    } else if !planned {
        r == UpdateStep::Plan
    } else {
        r == UpdateStep::Fallback
    }
}

/// Decides what the update step at `now` does next. `loaded` and `planned`
/// say whether a kept schedule was looked for, and whether a new schedule
/// was made, since the step began.
pub fn update_step(schedule: &Schedule, now: u64, loaded: bool, planned: bool) -> (r: UpdateStep)
    ensures
        next_step(schedule.blocks@, now, loaded, planned, r),
{
    match position_by_time(&schedule.blocks, truncate_to_unit(now)) {
        Some(i) => UpdateStep::Program(schedule.blocks[i].block_id),
        None => {
            if !loaded {
                UpdateStep::Load
            } else if !planned {
                UpdateStep::Plan
            } else {
                UpdateStep::Fallback
            }
        },
    }
}

/// What the program starts from after a restart.
#[derive(Clone, Copy, Debug)]
pub struct Recovery {
    /// The block to go on with, if one was kept that is still in force.
    pub active_block: Option<Block>,
    /// The record of the last charge, if one was kept that is not too old.
    pub last_charge: Option<LastCharge>,
    /// Whether a block has to be found anew.
    pub update: bool,
}

/// What the program goes on with after a restart at `now`, given the
/// active block and the record of the last charge that were kept: the block
/// is adopted while the present time lies within it, and then no block has
/// to be found anew; the record is adopted while it is no older than 23
/// hours.
pub open spec fn recovered(active_block: Option<Block>, last_charge: Option<LastCharge>, now: u64) -> Recovery {
    let block = match active_block {
        Some(b) => if b.covers(truncated(now as int, UNIT_SECONDS as int)) {
            Some(b)
        } else {
            None
        },
        None => None,
    };
    Recovery {
        active_block: block,
        last_charge: match last_charge {
            Some(l) => if now - l.date_time_end <= LAST_CHARGE_MAX_AGE {
                Some(l)
            } else {
                None
            },
            None => None,
        },
        update: block.is_none(),
    }
}

/// Decides what to go on with after a restart at `now`, given the active
/// block and the record of the last charge that were kept. A block that is
/// adopted is taken as it was kept, with its status: the inverter is not
/// set anew for it, and no new schedule is made on its account.
pub fn recover(active_block: Option<Block>, last_charge: Option<LastCharge>, now: u64) -> (r: Recovery)
    ensures
        r == recovered(active_block, last_charge, now),
{
    let block = load_active_block(active_block, now);
    let charge = load_last_charge(last_charge, now);
    Recovery { active_block: block, last_charge: charge, update: block.is_none() }
}

/// Whether the inverter's clock is off by more than the slack.
pub fn clock_needs_setting(device_time: u64, now: u64) -> (r: bool)
    ensures
        r == (device_time - now > CLOCK_SLACK_SECONDS || now - device_time > CLOCK_SLACK_SECONDS),
{
    if device_time >= now {
        device_time - now > CLOCK_SLACK_SECONDS
    } else {
        now - device_time > CLOCK_SLACK_SECONDS
    }
}

/// How a call to one of the services failed.
#[derive(Clone, Copy, PartialEq, Eq, Structural, Debug)]
pub enum Failure {
    /// The service could not be reached.
    Network,
    /// The service did not answer in time.
    Timeout,
    /// The service answered with the given status.
    Status(u16),
    /// The answer of the service is not what it should be.
    Malformed,
}

/// Whether a failure may pass: the service could not be reached, did not
/// answer in time, or answered with a status that tells of trouble on its
/// side. A failure that tells of a fault in the request or in the answer
/// does not pass by trying again.
pub open spec fn transient(f: Failure) -> bool {
    match f {
        Failure::Network => true,
        Failure::Timeout => true,
        Failure::Status(s) => 500 <= s <= 599,
        Failure::Malformed => false,
    }
}

/// Whether a failure may pass.
pub fn is_transient(f: Failure) -> (r: bool)
    ensures
        r == transient(f),
{
    match f {
        Failure::Network => true,
        Failure::Timeout => true,
        Failure::Status(s) => 500 <= s && s <= 599,
        Failure::Malformed => false,
    }
}

/// What to do after a call to the inverter failed.
#[derive(Clone, Copy, PartialEq, Eq, Structural, Debug)]
pub enum Retry {
    /// Wait for the given seconds and try again.
    Again(u64),
    /// The attempts are used up, or the failure will not pass: the block
    /// is in error.
    GiveUp,
}

/// Decides whether a failed call is tried again, given how it failed, how
/// many attempts were made and how many are allowed.
pub fn retry(failure: Failure, attempts_made: u32, max_attempts: u32) -> (r: Retry)
    ensures
        r == (if transient(failure) && attempts_made < max_attempts {
            Retry::Again(RETRY_WAIT_SECONDS)
        } else {
            Retry::GiveUp
        }),
{
    if is_transient(failure) && attempts_made < max_attempts {
        Retry::Again(RETRY_WAIT_SECONDS)
    } else {
        Retry::GiveUp
    }
}

/// The kinds of error that the program knows.
#[derive(Clone, Copy, PartialEq, Eq, Structural, Debug)]
pub enum ErrorKind {
    /// The configuration cannot be read or holds a bad value.
    Configuration,
    /// A service failed in a way that may pass.
    CollaboratorTransient,
    /// A service failed in a way that will not pass.
    CollaboratorPermanent,
    /// A file could not be written or read.
    PersistenceIO,
    /// No schedule could be made: no tariffs, no forecast, a time that
    /// cannot be read.
    Scheduling,
    /// A time could not be rounded.
    RoundingTime,
    /// A switch of the process is poisoned.
    PoisonedFlag,
}

/// What is done about an error.
#[derive(Clone, Copy, PartialEq, Eq, Structural, Debug)]
pub enum Policy {
    /// The program ends.
    Fatal,
    /// The call is tried again, and the error is handed up when the
    /// attempts are used up.
    Retry,
    /// The error is handed up at once; the program waits and starts over.
    Propagate,
    /// The error is logged and the loop goes on; what could not be written
    /// is written at the next tick.
    GoOn,
}

/// Decides what is done about an error of the given kind.
pub fn policy(kind: ErrorKind) -> (p: Policy)
    ensures
        p == match kind {
            ErrorKind::Configuration => Policy::Fatal,
            ErrorKind::CollaboratorTransient => Policy::Retry,
            ErrorKind::CollaboratorPermanent => Policy::Propagate,
            ErrorKind::PersistenceIO => Policy::GoOn,
            ErrorKind::Scheduling => Policy::Propagate,
            ErrorKind::RoundingTime => Policy::Fatal,
            ErrorKind::PoisonedFlag => Policy::Fatal,
        },
{
    match kind {
        ErrorKind::Configuration => Policy::Fatal,
        ErrorKind::CollaboratorTransient => Policy::Retry,
        ErrorKind::CollaboratorPermanent => Policy::Propagate,
        ErrorKind::PersistenceIO => Policy::GoOn,
        ErrorKind::Scheduling => Policy::Propagate,
        ErrorKind::RoundingTime => Policy::Fatal,
        ErrorKind::PoisonedFlag => Policy::Fatal,
    }
}

/// What to do after an error reached the top of the program.
#[derive(Clone, Copy, PartialEq, Eq, Structural, Debug)]
pub struct ErrorVerdict {
    /// Errors in a row, this one included.
    pub n_errors: u32,
    /// Give up and end the program with a failure.
    pub give_up: bool,
    /// Seconds to wait before starting over.
    pub wait: u64,
}

/// The count of errors in a row after one more at `now`: it starts anew
/// where the last error is more than an hour back.
pub open spec fn errors_in_row(n_errors: u32, last_error: u64, now: u64) -> int {
    if now > last_error && now - last_error > ERROR_WINDOW_SECONDS {
        1
    } else if n_errors >= MAX_ERRORS {
        MAX_ERRORS as int
    } else {
        n_errors + 1
    }
}

/// Manages an error that reached the top of the program: counts the errors
/// that follow each other within an hour, and gives up at the tenth.
pub fn manage_error(n_errors: u32, last_error: u64, now: u64) -> (v: ErrorVerdict)
    ensures
        v.n_errors == errors_in_row(n_errors, last_error, now),
        v.give_up == (v.n_errors >= MAX_ERRORS),
        v.wait == ERROR_WAIT_SECONDS,
{
    let n: u32 = if now > last_error && now - last_error > ERROR_WINDOW_SECONDS {
        1
    } else if n_errors >= MAX_ERRORS {
        MAX_ERRORS
    } else {
        n_errors + 1
    };
    ErrorVerdict { n_errors: n, give_up: n >= MAX_ERRORS, wait: ERROR_WAIT_SECONDS }
}

} // verus!

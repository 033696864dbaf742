use mygrid::backup::{
    get_base_data_time, is_expired, load_active_block, load_last_charge, load_schedule_blocks,
    ordinal0_of, sweep_base_data,
};
use mygrid::charge::{
    get_last_charge, get_soc_history, history_window, last_charge_is_fresh, soc_history_start,
    update_last_charge, updated_charge_data, LastCharge,
};
use mygrid::config::Charge;
use mygrid::scheduler::{Block, BlockType, Schedule, Status, Tariffs};
use mygrid::worker::{
    clock_needs_setting, is_manual_debug, is_transient, manage_error, policy, program_block,
    record_status, recover, retry, set_charge, set_full_if_done, set_hold, set_use, update_step,
    ErrorKind, Failure, Flags, InverterCommand, Policy, Retry, Supervisor, UpdateStep,
};

fn a_block(id: usize, kind: BlockType, start: u64, end: u64, soc_in: u8, soc_out: u8) -> Block {
    Block {
        block_id: id,
        block_type: kind,
        start_time: start,
        end_time: end,
        soc_in,
        soc_out,
        charge_in: (soc_in as u64 - 10) * 100,
        charge_out: (soc_out as u64 - 10) * 100,
        charge_tariff_in: 0,
        charge_tariff_out: 0,
        price: 0,
        overflow: 0,
        overflow_price: 0,
        true_soc_in: None,
        soc_wh: 100,
        status: Status::Waiting,
        tariffs: None,
    }
}

const DAY: u64 = 1_709_251_200;

fn rest(min_soc: u8) -> Vec<InverterCommand> {
    vec![
        InverterCommand::DisableChargeSchedule,
        InverterCommand::SetMinSocOnGrid(min_soc),
        InverterCommand::SetMaxSoc(100),
    ]
}

#[test]
fn manual_or_debug_gates() {
    let f = |debug, manual_day| Flags { debug, manual_day, logger_initialized: true };
    assert!(!is_manual_debug(&f(false, false)));
    assert!(is_manual_debug(&f(true, false)));
    assert!(is_manual_debug(&f(false, true)));
    assert!(is_manual_debug(&f(true, true)));
}

#[test]
fn full_transition() {
    // charge block 02:00 - 04:59 aimed at 85; at 03:15 the battery is at 86
    let start = DAY + 2 * 3600;
    let now = DAY + 3 * 3600 + 15 * 60;
    let mut b = a_block(0, BlockType::Charge, start, DAY + 5 * 3600 - 900, 40, 85);
    b.status = Status::Started;
    let mut schedule = Schedule::new("dir/", 100, Some(vec![b]));
    let mut sup = Supervisor::new(Some(0));
    let tick = sup.plan_tick(&schedule, now, 60, 3);
    assert!(!tick.check_clock);
    assert!(tick.probe_charge);
    assert!(!tick.update);

    let p = sup.charge_probed(&mut schedule, 86, now, false).unwrap();
    assert_eq!(p.status, Status::Full(86, now));
    assert_eq!(p.commands, rest(85));
    assert_eq!(sup.charge_check_done, now);
    let done = schedule.blocks[0];
    assert_eq!(done.status, Status::Full(86, now));
    assert_eq!(done.soc_out, 86);
    assert_eq!(done.charge_out, 7600);

    let record = get_last_charge(&done, now);
    assert_eq!(record.date_time_end, now);
    assert_eq!((record.soc_in, record.soc_out), (40, 86));

    // no probe again within five minutes, and none of a block that is full
    let mut running = a_block(0, BlockType::Charge, start, DAY + 5 * 3600 - 900, 40, 85);
    running.status = Status::Started;
    let other = Schedule::new("dir/", 100, Some(vec![running]));
    assert!(!sup.plan_tick(&other, now + 299, 60, 3).probe_charge);
    assert!(sup.plan_tick(&other, now + 300, 60, 3).probe_charge);
    assert!(!sup.plan_tick(&schedule, now + 300, 60, 3).probe_charge);
}

#[test]
fn probe_below_target_changes_nothing() {
    let mut b = a_block(0, BlockType::Charge, DAY, DAY + 2700, 40, 85);
    b.status = Status::Started;
    let mut schedule = Schedule::new("dir/", 100, Some(vec![b]));
    let mut sup = Supervisor::new(Some(0));
    assert!(sup.charge_probed(&mut schedule, 84, DAY + 400, false).is_none());
    assert_eq!(schedule.blocks[0].status, Status::Started);
    assert_eq!(sup.charge_check_done, DAY + 400);
}

#[test]
fn gating_suppresses_commands_but_not_status() {
    let charge = a_block(0, BlockType::Charge, DAY, DAY + 2700, 40, 85);
    let hold = a_block(1, BlockType::Hold, DAY, DAY + 2700, 55, 55);
    let usage = a_block(2, BlockType::Use, DAY, DAY + 2700, 55, 20);
    for b in [charge, hold, usage] {
        for soc in [10u8, 50, 85, 100] {
            let open = program_block(&b, soc, DAY + 5, false);
            let gated = program_block(&b, soc, DAY + 5, true);
            assert_eq!(open.status, gated.status);
            assert!(!open.commands.is_empty());
            assert!(gated.commands.is_empty());
        }
    }
    let p = set_full_if_done(90, 85, DAY, true).unwrap();
    assert_eq!(p.status, Status::Full(90, DAY));
    assert!(p.commands.is_empty());
}

#[test]
fn charge_block_is_programmed() {
    let b = a_block(0, BlockType::Charge, DAY, DAY + 3 * 3600 - 900, 40, 85);
    let p = set_charge(&b, 60, DAY + 1, false);
    assert_eq!(p.status, Status::Started);
    assert_eq!(
        p.commands,
        vec![
            InverterCommand::SetMaxSoc(85),
            InverterCommand::SetChargeSchedule(DAY, DAY + 3 * 3600),
        ]
    );
    let full = set_charge(&b, 85, DAY + 1, false);
    assert_eq!(full.status, Status::Full(85, DAY + 1));
    assert_eq!(full.commands, rest(85));
}

#[test]
fn hold_splits_surplus() {
    // soc above what the block was planned to enter with: half of the surplus is held
    assert_eq!(set_hold(70, 50, false).commands, rest(60));
    assert_eq!(set_hold(50, 50, false).commands, rest(50));
    assert_eq!(set_hold(40, 50, false).commands, rest(40));
    assert_eq!(set_hold(5, 50, false).commands, rest(10));
    assert_eq!(set_hold(255, 101, false).commands, rest(100));
    assert_eq!(set_hold(70, 50, false).status, Status::Started);
}

#[test]
fn use_frees_the_battery() {
    let p = set_use(false);
    assert_eq!(p.status, Status::Started);
    assert_eq!(p.commands, rest(10));
}

#[test]
fn tick_plan() {
    let b = a_block(0, BlockType::Hold, DAY, DAY + 4 * 3600 - 900, 55, 55);
    let schedule = Schedule::new("dir/", 100, Some(vec![b]));
    let sup = Supervisor::new(None);
    let t = sup.plan_tick(&schedule, DAY + 10, 60, 14);
    assert!(t.update);
    assert!(!t.probe_charge);
    assert!(!t.check_clock);
    let t = sup.plan_tick(&schedule, DAY + 10, 60, 15);
    assert!(t.check_clock);

    let mut later = sup;
    later.clock_checked(60);
    assert!(!later.plan_tick(&schedule, DAY + 10, 60, 16).check_clock);
    assert!(later.plan_tick(&schedule, DAY + 10, 61, 16).check_clock);
    assert!(!later.plan_tick(&schedule, DAY + 10, 61, 3).check_clock);
    later.clock_hour = 3;
    assert!(later.plan_tick(&schedule, DAY + 10, 61, 3).check_clock);
}

#[test]
fn activation_records_status_and_soc() {
    let b = a_block(4, BlockType::Hold, DAY, DAY + 4 * 3600 - 900, 55, 55);
    let mut schedule = Schedule::new("dir/", 100, Some(vec![b]));
    let mut sup = Supervisor::new(None);
    sup.activated(&mut schedule, 4, Status::Started, 57);
    assert_eq!(sup.active_block, Some(4));
    assert_eq!(schedule.blocks[0].status, Status::Started);
    assert_eq!(schedule.blocks[0].true_soc_in, Some(57));
    assert!(!sup.plan_tick(&schedule, DAY + 10, 60, 3).update);
    assert!(sup.plan_tick(&schedule, DAY + 4 * 3600, 60, 3).update);

    sup.failed(&mut schedule, 4);
    assert_eq!(schedule.blocks[0].status, Status::Error);
    assert!(!record_status(&mut schedule, 9, Status::Started, None));
}

#[test]
fn update_step_is_taken_in_order() {
    let b = a_block(7, BlockType::Hold, DAY, DAY + 4 * 3600 - 900, 55, 55);
    let later = a_block(8, BlockType::Use, DAY + 4 * 3600, DAY + 6 * 3600 - 900, 55, 10);
    let schedule = Schedule::new("dir/", 100, Some(vec![b, later]));
    // a block in force is programmed, whatever was tried
    assert_eq!(update_step(&schedule, DAY + 10, false, false), UpdateStep::Program(7));
    assert_eq!(update_step(&schedule, DAY + 4 * 3600 - 1, true, true), UpdateStep::Program(7));
    assert_eq!(update_step(&schedule, DAY + 4 * 3600, false, true), UpdateStep::Program(8));
    // without one a kept schedule is looked for, then a new one is made,
    // then the fallback takes over
    let at = DAY + 6 * 3600;
    assert_eq!(update_step(&schedule, at, false, false), UpdateStep::Load);
    assert_eq!(update_step(&schedule, at, false, true), UpdateStep::Load);
    assert_eq!(update_step(&schedule, at, true, false), UpdateStep::Plan);
    assert_eq!(update_step(&schedule, at, true, true), UpdateStep::Fallback);
    let empty = Schedule::new("dir/", 100, None);
    assert_eq!(update_step(&empty, at, false, false), UpdateStep::Load);
}

#[test]
fn restart_recovery() {
    // hold block 05:00 - 08:59 at 55; last charge ended 07:00 the day before; start at 06:30
    let hold = a_block(1, BlockType::Hold, DAY + 5 * 3600, DAY + 9 * 3600 - 900, 55, 55);
    let old = LastCharge {
        date_time_end: DAY + 7 * 3600 - 86_400,
        soc_in: 10,
        soc_out: 80,
        charge_in: 0,
        charge_out: 7000,
        charge_tariff_in: 0,
        charge_tariff_out: 400_000,
    };
    let now = DAY + 6 * 3600 + 1800;
    let r = recover(Some(hold), Some(old), now);
    assert_eq!(r.active_block.unwrap().block_id, 1);
    assert!(r.last_charge.is_none());
    assert!(!r.update);

    let late = recover(Some(hold), Some(old), DAY + 9 * 3600);
    assert!(late.active_block.is_none());
    assert!(late.update);
    assert!(recover(None, None, now).update);
}

#[test]
fn last_charge_is_kept_for_23_hours() {
    let l = LastCharge {
        date_time_end: DAY,
        soc_in: 10,
        soc_out: 80,
        charge_in: 0,
        charge_out: 7000,
        charge_tariff_in: 0,
        charge_tariff_out: 400_000,
    };
    assert!(last_charge_is_fresh(&l, DAY + 23 * 3600));
    assert!(!last_charge_is_fresh(&l, DAY + 23 * 3600 + 1));
    assert!(last_charge_is_fresh(&l, DAY - 5));
    assert!(load_last_charge(Some(l), DAY + 100).is_some());
    assert!(load_last_charge(Some(l), DAY + 24 * 3600).is_none());
    assert!(load_last_charge(None, DAY).is_none());
}

#[test]
fn active_block_is_kept_while_in_force() {
    let b = a_block(1, BlockType::Hold, DAY, DAY + 3600 - 900, 55, 55);
    assert!(load_active_block(Some(b), DAY).is_some());
    assert!(load_active_block(Some(b), DAY + 3599).is_some());
    assert!(load_active_block(Some(b), DAY + 3600).is_none());
    assert!(load_active_block(Some(b), DAY - 1).is_none());
    assert!(load_active_block(None, DAY).is_none());
}

#[test]
fn schedule_is_kept_for_its_day() {
    let blocks = vec![a_block(0, BlockType::Use, DAY - 3600, DAY + 3600, 10, 10)];
    // the block starts on the last day of February and ends on the first of March
    assert!(load_schedule_blocks(blocks.clone(), DAY + 5).is_some());
    assert!(load_schedule_blocks(blocks.clone(), DAY - 5).is_some());
    assert!(load_schedule_blocks(blocks.clone(), DAY + 86_400).is_none());
    assert!(load_schedule_blocks(blocks.clone(), DAY - 86_401).is_none());
    assert!(load_schedule_blocks(Vec::new(), DAY).is_none());
    assert_eq!(ordinal0_of(DAY), Some(60));
    assert_eq!(ordinal0_of(0), Some(0));
    assert_eq!(ordinal0_of(86_400 * 365), Some(0));
    assert_eq!(ordinal0_of(86_400 * 365 - 1), Some(364));
    assert_eq!(ordinal0_of(u64::MAX), None);
}

#[test]
fn base_data_expires_after_two_days() {
    assert!(!is_expired(DAY, DAY + 172_800));
    assert!(is_expired(DAY, DAY + 172_801));
    assert!(!is_expired(DAY, DAY - 1));
    let written = vec![Some(DAY), None, Some(DAY + 10), Some(DAY - 1), Some(DAY + 200_000)];
    assert_eq!(sweep_base_data(&written, DAY + 172_801), vec![0, 3]);
    assert_eq!(sweep_base_data(&written, DAY), Vec::<usize>::new());
    assert_eq!(sweep_base_data(&Vec::new(), DAY), Vec::<usize>::new());
}

#[test]
fn base_data_name_gives_time() {
    assert_eq!(get_base_data_time("20240301000000_base_data.json"), Some(DAY));
    assert_eq!(get_base_data_time("20240301000130_base_data.json"), Some(DAY + 90));
    assert_eq!(get_base_data_time("19700101000000_base_data.json"), Some(0));
    assert_eq!(get_base_data_time("19691231235959_base_data.json"), None);
    assert_eq!(get_base_data_time("20240301000000_base_data.jsom"), None);
    assert_eq!(get_base_data_time("20241301000000_base_data.json"), None);
    assert_eq!(get_base_data_time("2024030100000_base_data.json"), None);
    assert_eq!(get_base_data_time("base_data.json"), None);
    assert_eq!(get_base_data_time("2024030100000\u{e5}_base_data.json"), None);
}

#[test]
fn errors_are_counted_within_an_hour() {
    let v = manage_error(0, 0, 5);
    assert_eq!((v.n_errors, v.give_up, v.wait), (1, false, 600));
    let v = manage_error(3, 1000, 1000 + 3600);
    assert_eq!((v.n_errors, v.give_up), (4, false));
    let v = manage_error(3, 1000, 1000 + 3601);
    assert_eq!((v.n_errors, v.give_up), (1, false));
    let v = manage_error(9, 1000, 2000);
    assert_eq!((v.n_errors, v.give_up), (10, true));
    let v = manage_error(u32::MAX, 1000, 2000);
    assert_eq!((v.n_errors, v.give_up), (10, true));
}

#[test]
fn calls_are_retried_three_times() {
    assert_eq!(retry(Failure::Network, 1, 3), Retry::Again(10));
    assert_eq!(retry(Failure::Timeout, 2, 3), Retry::Again(10));
    assert_eq!(retry(Failure::Status(503), 2, 3), Retry::Again(10));
    assert_eq!(retry(Failure::Network, 3, 3), Retry::GiveUp);
    assert_eq!(retry(Failure::Network, 0, 0), Retry::GiveUp);
}

#[test]
fn lasting_failures_are_not_retried() {
    assert_eq!(retry(Failure::Status(401), 1, 3), Retry::GiveUp);
    assert_eq!(retry(Failure::Status(404), 0, 3), Retry::GiveUp);
    assert_eq!(retry(Failure::Malformed, 0, 3), Retry::GiveUp);
    assert!(is_transient(Failure::Status(500)));
    assert!(is_transient(Failure::Status(599)));
    assert!(!is_transient(Failure::Status(600)));
    assert!(!is_transient(Failure::Status(499)));
    assert!(!is_transient(Failure::Status(204)));
}

#[test]
fn each_kind_of_error_has_its_policy() {
    assert_eq!(policy(ErrorKind::Configuration), Policy::Fatal);
    assert_eq!(policy(ErrorKind::CollaboratorTransient), Policy::Retry);
    assert_eq!(policy(ErrorKind::CollaboratorPermanent), Policy::Propagate);
    assert_eq!(policy(ErrorKind::PersistenceIO), Policy::GoOn);
    assert_eq!(policy(ErrorKind::Scheduling), Policy::Propagate);
    assert_eq!(policy(ErrorKind::RoundingTime), Policy::Fatal);
    assert_eq!(policy(ErrorKind::PoisonedFlag), Policy::Fatal);
}

#[test]
fn what_could_not_be_written_is_due_at_the_next_tick() {
    let schedule = Schedule::new("dir/", 100, None);
    let mut sup = Supervisor::new(None);
    assert!(!sup.plan_tick(&schedule, DAY, 60, 3).persist);
    sup.persisted(false);
    assert!(sup.dirty);
    assert!(sup.plan_tick(&schedule, DAY, 60, 3).persist);
    sup.persisted(true);
    assert!(!sup.plan_tick(&schedule, DAY, 60, 3).persist);
}

#[test]
fn inverter_clock_is_set_when_off_by_more_than_a_minute() {
    assert!(!clock_needs_setting(1000, 1060));
    assert!(clock_needs_setting(1000, 1061));
    assert!(!clock_needs_setting(1060, 1000));
    assert!(clock_needs_setting(1061, 1000));
}

#[test]
fn history_is_asked_from_the_last_charge() {
    let mut b = a_block(0, BlockType::Hold, DAY, DAY + 2700, 55, 55);
    let l = LastCharge {
        date_time_end: DAY - 500,
        soc_in: 10,
        soc_out: 80,
        charge_in: 0,
        charge_out: 7000,
        charge_tariff_in: 0,
        charge_tariff_out: 400_000,
    };
    assert_eq!(soc_history_start(&Some(b), &Some(l)), Some(DAY - 500));
    assert_eq!(soc_history_start(&Some(b), &None), None);
    b.charge_tariff_in = 5;
    assert_eq!(soc_history_start(&Some(b), &None), Some(DAY));
    assert_eq!(soc_history_start(&None, &None), None);

    assert_eq!(history_window(DAY, DAY + 86_399), (DAY, DAY + 86_399));
    assert_eq!(history_window(DAY, DAY + 86_400), (DAY + 1, DAY + 86_400));
    assert_eq!(history_window(DAY, DAY + 200_000), (DAY + 200_000 - 86_399, DAY + 200_000));

    assert_eq!(get_soc_history(Some(vec![50, 60]), 70), (vec![50, 60, 70], 70));
    assert_eq!(get_soc_history(None, 70), (vec![70], 70));
}

#[test]
fn charge_data_follows_history() {
    let l = LastCharge {
        date_time_end: DAY - 500,
        soc_in: 10,
        soc_out: 50,
        charge_in: 0,
        charge_out: 4000,
        charge_tariff_in: 0,
        charge_tariff_out: 1_000_000,
    };
    let history = vec![50u8, 70, 60, 80];
    let (charge, tariff) = updated_charge_data(&None, &Some(l), &history, 80, 166);
    assert_eq!(charge, 70 * 166);
    assert_eq!(tariff, 750_000);

    let mut b = a_block(0, BlockType::Use, DAY, DAY + 2700, 55, 55);
    let (charge, tariff) = updated_charge_data(&Some(b), &None, &history, 5, 166);
    assert_eq!((charge, tariff), (0, 0));
    b.charge_tariff_in = 2_000_000;
    let (_, tariff) = updated_charge_data(&Some(b), &None, &history, 80, 166);
    assert_eq!(tariff, 2_000_000u64 * 60 / 80);
    assert_eq!(tariff, 1_500_000);
    let (_, tariff) = updated_charge_data(&None, &None, &history, 80, 166);
    assert_eq!(tariff, 0);
}

#[test]
fn last_charge_is_made_from_running_charge_block() {
    let config = Charge {
        soc_wh: 100,
        bat_capacity: 10_000,
        bat_wh: 9_000,
        charge_wh_hour: 3_000,
        charge_efficiency: 1000,
        discharge_efficiency: 1000,
        sell_priority: 1000,
        min_use_tariff: 500_000,
    };
    let schedule = mygrid::scheduling::Schedule::new(&config);
    let mut buy = [0u64; 24];
    buy[0] = 1_000_000;
    buy[1] = 2_000_000;
    let tariffs = Tariffs { buy, sell: [0i64; 24], length: 2, start_time: DAY };
    let mut b = a_block(0, BlockType::Charge, DAY, DAY + 2 * 3600 - 900, 10, 60);
    b.status = Status::Started;
    b.tariffs = Some(tariffs);
    let mut active = Some(b);
    // reached 50 in the second hour: 3000 Wh at 1.0 and 1000 Wh at 2.0
    let r = update_last_charge(&schedule, &mut active, None, 50, DAY + 4000).unwrap();
    let done = active.unwrap();
    assert_eq!(done.status, Status::Full(50, DAY + 4000));
    assert_eq!(done.soc_out, 50);
    assert_eq!(done.charge_out, 4000);
    assert_eq!(done.charge_tariff_out, (3000 * 1_000_000 + 1000 * 2_000_000) / 4000);
    assert_eq!(r.date_time_end, DAY + 4000);
    assert_eq!(r.charge_tariff_out, 1_250_000);
    assert_eq!(r.soc_out, 50);

    // reached in the first hour already: only the first hour's tariff counts
    let mut early = Some(b);
    update_last_charge(&schedule, &mut early, None, 50, DAY + 100);
    assert_eq!(early.unwrap().charge_tariff_out, 3000 * 1_000_000 / 4000);

    // a block that is not a running charge block leaves the record as it is
    let mut hold = Some(a_block(1, BlockType::Hold, DAY, DAY + 2700, 55, 55));
    assert!(update_last_charge(&schedule, &mut hold, None, 50, DAY).is_none());
    assert_eq!(hold.unwrap().status, Status::Waiting);
    let mut none: Option<Block> = None;
    assert_eq!(
        update_last_charge(&schedule, &mut none, Some(r), 50, DAY).unwrap().date_time_end,
        DAY + 4000
    );
}

use mygrid::text::{align_right, hundredths, two_digits};
use mygrid::scheduler::{
    merge_blocks,
    find_schedule, get_fallback_schedule, get_schedule_time, Block, BlockType, Schedule, Status,
};

fn block(id: usize, kind: BlockType, start: u64, end: u64, soc_in: u8, soc_out: u8) -> Block {
    Block {
        block_id: id,
        block_type: kind,
        start_time: start,
        end_time: end,
        soc_in,
        soc_out,
        charge_in: (soc_in as u64 - 10) * 100,
        charge_out: (soc_out as u64 - 10) * 100,
        charge_tariff_in: 0,
        charge_tariff_out: 0,
        price: 0,
        overflow: 0,
        overflow_price: 0,
        true_soc_in: None,
        soc_wh: 100,
        status: Status::Waiting,
        tariffs: None,
    }
}

fn day() -> Vec<Block> {
    vec![
        block(0, BlockType::Charge, 7200, 7200 + 3 * 3600 - 900, 10, 85),
        block(1, BlockType::Hold, 18000, 18000 + 4 * 3600 - 900, 85, 85),
        block(2, BlockType::Use, 32400, 32400 + 2 * 3600 - 900, 85, 40),
    ]
}

#[test]
fn block_is_found_by_time() {
    let mut s = Schedule::new("dir/", 100, Some(day()));
    assert_eq!(s.get_block_by_time(7200, false), Some(0));
    assert_eq!(s.get_block_by_time(7200 + 3 * 3600 - 1, false), Some(0));
    assert_eq!(s.get_block_by_time(18000, false), Some(1));
    assert_eq!(s.get_block_by_time(18000 + 901, false), Some(1));
    assert_eq!(s.get_block_by_time(39599, false), Some(2));
    assert_eq!(s.get_block_by_time(39600, false), None);
    assert_eq!(s.get_block_by_time(7199, false), None);
    assert_eq!(s.blocks.len(), 3);
}

#[test]
fn fallback_replaces_schedule() {
    let mut s = Schedule::new("dir/", 166, Some(day()));
    assert_eq!(s.get_block_by_time(100_000, true), Some(0));
    assert_eq!(s.blocks.len(), 1);
    let b = s.blocks[0];
    assert_eq!(b.block_type, BlockType::Use);
    assert_eq!((b.soc_in, b.soc_out), (10, 10));
    assert_eq!((b.charge_in, b.charge_out), (0, 0));
    assert_eq!(b.status, Status::Waiting);
    assert_eq!(b.soc_wh, 166);
    let f = get_fallback_schedule(7);
    assert_eq!(f.len(), 1);
    assert_eq!(f[0].soc_wh, 7);
}

#[test]
fn empty_schedule_has_no_block() {
    let mut s = Schedule::new("dir/", 100, None);
    assert!(s.blocks.is_empty());
    assert_eq!(s.schedule_dir, "dir/");
    assert_eq!(s.get_block_by_time(0, false), None);
    assert!(s.get_block_by_id(0).is_none());
    assert!(s.is_update_time(0, 0));
    assert!(!s.is_active_charging(0, 0));
}

#[test]
fn block_by_id_can_be_changed() {
    let mut s = Schedule::new("dir/", 100, Some(day()));
    {
        let b = s.get_block_by_id(1).unwrap();
        assert_eq!(b.block_type, BlockType::Hold);
        b.update_block_status(Status::Started, Some(83));
    }
    assert_eq!(s.blocks[1].status, Status::Started);
    assert_eq!(s.blocks[1].true_soc_in, Some(83));
    assert_eq!(s.blocks[0].status, Status::Waiting);
    assert!(s.get_block_by_id(7).is_none());
}

#[test]
fn update_time_when_outside_or_waiting() {
    let mut s = Schedule::new("dir/", 100, Some(day()));
    // waiting block: always time to update
    assert!(s.is_update_time(0, 7200));
    s.get_block_by_id(0).unwrap().update_block_status(Status::Started, None);
    assert!(!s.is_update_time(0, 7200));
    assert!(!s.is_update_time(0, 7200 + 3 * 3600 - 1));
    assert!(s.is_update_time(0, 7200 + 3 * 3600));
    assert!(s.is_update_time(0, 7199));
    assert!(s.is_update_time(9, 7200));
}

#[test]
fn active_charging_needs_started_charge_block_in_bounds() {
    let mut s = Schedule::new("dir/", 100, Some(day()));
    assert!(!s.is_active_charging(0, 7200));
    s.get_block_by_id(0).unwrap().update_block_status(Status::Started, None);
    assert!(s.is_active_charging(0, 7200));
    assert!(s.is_active_charging(0, 7200 + 899));
    assert!(!s.is_active_charging(0, 7199));
    assert!(!s.is_active_charging(0, 18000));
    s.get_block_by_id(1).unwrap().update_block_status(Status::Started, None);
    assert!(!s.is_active_charging(1, 18000));
    s.get_block_by_id(0).unwrap().update_block_status(Status::Full(85, 9000), None);
    assert!(!s.is_active_charging(0, 9000));
}

#[test]
fn full_charge_block_leaves_at_reached_soc() {
    let mut b = block(0, BlockType::Charge, 0, 2700, 10, 85);
    b.update_block_status(Status::Full(86, 1234), Some(12));
    assert_eq!(b.status, Status::Full(86, 1234));
    assert_eq!(b.soc_out, 86);
    assert_eq!(b.charge_out, 7600);
    assert_eq!(b.true_soc_in, Some(12));

    let mut low = block(0, BlockType::Charge, 0, 2700, 10, 85);
    low.update_block_status(Status::Full(3, 1), None);
    assert_eq!(low.soc_out, 10);
    assert_eq!(low.charge_out, 0);

    let mut hold = block(1, BlockType::Hold, 0, 2700, 50, 50);
    hold.update_block_status(Status::Full(86, 1234), None);
    assert_eq!(hold.soc_out, 50);
    assert_eq!(hold.charge_out, 4000);
    assert_eq!(hold.status, Status::Full(86, 1234));
}

#[test]
fn schedule_file_name_gives_span() {
    // 2024-03-01 00:00 UTC and 2024-03-02 00:00 UTC
    let r = get_schedule_time("202403010000_202403020000_schedule.json");
    assert_eq!(r.ok().unwrap(), (1_709_251_200, 1_709_337_600));
    let r = get_schedule_time("197001010001_197001010215_schedule.json");
    assert_eq!(r.ok().unwrap(), (60, 8100));
}

#[test]
fn malformed_schedule_file_name_is_an_error() {
    let e = get_schedule_time("schedule.json").err().unwrap();
    assert_eq!(e.0, "malformed schedule file name");
    let e = get_schedule_time("20240301000_2024030200000_schedule.json").err();
    assert!(e.is_some());
    let e = get_schedule_time("202413010000_202403020000_schedule.json").err();
    assert!(e.is_some());
    let e = get_schedule_time("2024030100\u{e5}0_20240302000_schedule.json").err().unwrap();
    assert_eq!(e.0, "malformed schedule file name");
}

#[test]
fn first_schedule_file_for_the_time_is_found() {
    let day: u64 = 1_709_251_200;
    let names = vec![
        "202403010000_202403020000_schedule.json".to_string(),
        "202403011200_202403030000_schedule.json".to_string(),
        "202403030000_202403040000_schedule.json".to_string(),
    ];
    let found = |t: u64| find_schedule(&names, t).ok().unwrap();
    assert_eq!(found(day), Some(0));
    assert_eq!(found(day + 86_399), Some(0));
    assert_eq!(found(day + 86_400), Some(1));
    assert_eq!(found(day + 172_800), Some(2));
    assert_eq!(found(day + 259_200), None);
    assert_eq!(found(day - 1), None);
    assert_eq!(find_schedule(&Vec::new(), day).ok().unwrap(), None);
}

#[test]
fn unreadable_schedule_file_name_ends_the_search() {
    let day: u64 = 1_709_251_200;
    let names = vec![
        "202403010000_202403020000_schedule.json".to_string(),
        "old_schedule.json".to_string(),
        "202403030000_202403040000_schedule.json".to_string(),
    ];
    // a file before the unreadable name is for the time
    assert_eq!(find_schedule(&names, day + 10).ok().unwrap(), Some(0));
    // the search comes to the unreadable name
    let e = find_schedule(&names, day + 172_800).err().unwrap();
    assert_eq!(e.0, "malformed schedule file name");
    let e = find_schedule(&names, day - 1).err().unwrap();
    assert_eq!(e.0, "malformed schedule file name");
    let bad_month = vec!["202413010000_202403020000_schedule.json".to_string()];
    assert!(find_schedule(&bad_month, day).is_err());
}

#[test]
fn loaded_blocks_replace_schedule() {
    let mut s = Schedule::new("dir/", 100, None);
    s.update_scheduling(None);
    assert!(s.blocks.is_empty());
    s.update_scheduling(Some(day()));
    assert_eq!(s.blocks.len(), 3);
    s.update_scheduling(None);
    assert_eq!(s.blocks.len(), 3);
}

#[test]
fn block_is_told_in_a_line() {
    let mut b = block(0, BlockType::Charge, 1_709_251_200 + 2 * 3600, 1_709_251_200 + 5 * 3600 - 900, 40, 85);
    b.price = 1_234_567_890;
    b.true_soc_in = Some(7);
    assert_eq!(
        b.describe(),
        "Charge -> 02:00 - Length: 03:00: SocIn  40, SocOut  85, True SocIn:   7, Cost  1.23 "
    );
    let mut h = block(1, BlockType::Hold, 1_709_251_200 + 23 * 3600 + 900, 1_709_251_200 + 24 * 3600 + 1800, 100, 100);
    h.price = -9_990_000_000;
    assert_eq!(
        h.describe(),
        "Hold   -> 23:15 - Length: 01:30: SocIn 100, SocOut 100, True SocIn:   0, Cost -9.99 "
    );
    let u = block(2, BlockType::Use, 900, 0, 10, 10);
    assert_eq!(
        u.describe(),
        "Use    -> 00:15 - Length: 00:00: SocIn  10, SocOut  10, True SocIn:   0, Cost  0.00 "
    );
}

#[test]
fn numbers_are_written_to_a_width() {
    assert_eq!(two_digits(0), "00");
    assert_eq!(two_digits(9), "09");
    assert_eq!(two_digits(10), "10");
    assert_eq!(two_digits(123), "123");
    assert_eq!(hundredths(0), "0.00");
    assert_eq!(hundredths(5), "0.05");
    assert_eq!(hundredths(-5), "-0.05");
    assert_eq!(hundredths(12_345), "123.45");
    assert_eq!(hundredths(i64::MIN), "-92233720368547758.08");
    assert_eq!(align_right("ab", 5), "   ab");
    assert_eq!(align_right("abcdef", 5), "abcdef");
    assert_eq!(align_right("", 0), "");
    assert_eq!(align_right("\u{e5}", 2), " \u{e5}");
}

#[test]
fn blocks_in_progress_keep_their_state() {
    let mut s = Schedule::new("dir/", 100, Some(day()));
    s.get_block_by_id(0).unwrap().update_block_status(Status::Full(80, 9000), Some(38));
    s.get_block_by_id(1).unwrap().update_block_status(Status::Started, Some(81));

    // a new schedule: the charge block again, the hold block as a use block, and a new block
    let mut charge = block(5, BlockType::Charge, 7200, 7200 + 2 * 3600 - 900, 10, 90);
    charge.price = 77;
    let usage = block(6, BlockType::Use, 18000, 18000 + 3600 - 900, 90, 60);
    let fresh = block(7, BlockType::Hold, 18000 + 3600, 18000 + 7200 - 900, 60, 60);
    s.update_scheduling(Some(vec![charge, usage, fresh]));

    assert_eq!(s.blocks.len(), 3);
    let c = s.blocks[0];
    assert_eq!((c.block_id, c.status, c.true_soc_in), (5, Status::Full(80, 9000), Some(38)));
    assert_eq!((c.soc_out, c.charge_out, c.price), (80, 7000, 77));
    assert_eq!(c.end_time, 7200 + 2 * 3600 - 900);
    let u = s.blocks[1];
    assert_eq!((u.block_id, u.status, u.true_soc_in), (6, Status::Started, Some(81)));
    assert_eq!((u.block_type, u.soc_out), (BlockType::Use, 60));
    let f = s.blocks[2];
    assert_eq!((f.block_id, f.status, f.true_soc_in), (7, Status::Waiting, None));

    // blocks that wait hand nothing on
    let merged = merge_blocks(&day(), vec![charge]);
    assert_eq!(merged[0].status, Status::Waiting);
    assert_eq!(merged[0].soc_out, 90);
    assert!(merge_blocks(&day(), Vec::new()).is_empty());
}

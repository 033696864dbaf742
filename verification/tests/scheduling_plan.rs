use mygrid::config::Charge;
use mygrid::consumption::ConsumptionValues;
use mygrid::models::nordpool_tariffs::TariffValues;
use mygrid::production::ProductionValues;
use mygrid::scheduler::{Block, BlockType, Status};
use mygrid::scheduling::Schedule;

const START: u64 = 1_700_000_000 - 1_700_000_000 % 86_400;

fn config() -> Charge {
    Charge {
        soc_wh: 100,
        bat_capacity: 10_000,
        bat_wh: 9_000,
        charge_wh_hour: 3_000,
        charge_efficiency: 1000,
        discharge_efficiency: 1000,
        sell_priority: 1000,
        min_use_tariff: 500_000,
    }
}

fn tariffs(buy: &[i64], sell: i64) -> Vec<TariffValues> {
    let mut v = Vec::new();
    for (i, b) in buy.iter().enumerate() {
        v.push(TariffValues { valid_time: START + 3600 * i as u64, price: *b, buy: *b, sell });
    }
    v
}

fn production(wh: &[u64]) -> Vec<ProductionValues> {
    let mut v = Vec::new();
    for (i, p) in wh.iter().enumerate() {
        v.push(ProductionValues { valid_time: START + 3600 * i as u64, power: *p });
    }
    v
}

fn consumption(wh: &[u64]) -> Vec<ConsumptionValues> {
    let mut v = Vec::new();
    for (i, p) in wh.iter().enumerate() {
        v.push(ConsumptionValues { valid_time: START + 3600 * i as u64, power: *p });
    }
    v
}

fn check_invariants(blocks: &Vec<Block>, hours: u64, soc_wh: u64) {
    assert!(!blocks.is_empty());
    assert_eq!(blocks[0].start_time, START);
    assert_eq!(blocks[blocks.len() - 1].end_time + 900, START + hours * 3600);
    for (i, b) in blocks.iter().enumerate() {
        assert_eq!(b.block_id, i);
        assert!(10 <= b.soc_in && b.soc_in <= 100);
        assert!(10 <= b.soc_out && b.soc_out <= 100);
        assert_eq!(b.charge_in, (b.soc_in as u64 - 10) * soc_wh);
        assert_eq!(b.charge_out, (b.soc_out as u64 - 10) * soc_wh);
        assert!(b.start_time <= b.end_time);
        if b.block_type != BlockType::Charge {
            assert!(b.charge_tariff_out <= b.charge_tariff_in);
        }
        assert_eq!(b.status, Status::Waiting);
        if i + 1 < blocks.len() {
            assert_eq!(b.end_time + 900, blocks[i + 1].start_time);
            assert_eq!(b.soc_out, blocks[i + 1].soc_in);
        }
    }
}

#[test]
fn valley_charge_then_use() {
    let buy = [500_000i64, 500_000, 500_000, 3_000_000, 3_000_000, 3_000_000, 500_000, 500_000];
    let mut s = Schedule::new(&config());
    let r = s.update_scheduling(
        &tariffs(&buy, 0),
        &production(&[0; 8]),
        &consumption(&[1000; 8]),
        0,
        0,
        START + 17,
    );
    let (horizon, plan) = r.ok().unwrap();
    assert_eq!(horizon.tariffs.length, 8);
    assert_eq!(horizon.net_prod[0], -1000);
    let first = plan.first.unwrap();
    assert!(plan.second.is_none());
    assert_eq!(first.seek, 0);
    assert_eq!(first.target, 21);
    assert_eq!(first.use_start, 3);

    check_invariants(&s.blocks, 8, 100);
    assert_eq!(s.blocks.len(), 4);
    let b = &s.blocks;
    assert_eq!(b[0].block_type, BlockType::Charge);
    assert_eq!((b[0].start_time, b[0].end_time), (START, START + 2700));
    assert_eq!((b[0].soc_in, b[0].soc_out), (10, 31));
    assert_eq!(b[0].price, 2100 * 500_000);
    assert_eq!(b[0].charge_tariff_out, 500_000);
    assert!(b[0].tariffs.is_some());
    assert_eq!(b[1].block_type, BlockType::Hold);
    assert_eq!((b[1].start_time, b[1].end_time), (START + 3600, START + 3 * 3600 - 900));
    assert_eq!((b[1].soc_in, b[1].soc_out), (31, 31));
    assert_eq!(b[2].block_type, BlockType::Use);
    assert_eq!((b[2].start_time, b[2].end_time), (START + 3 * 3600, START + 6 * 3600 - 900));
    assert_eq!((b[2].soc_in, b[2].soc_out), (31, 10));
    assert_eq!(b[2].price, 3 * 1000 * 3_000_000);
    assert_eq!(b[2].charge_tariff_out, 0);
    assert_eq!(b[3].block_type, BlockType::Hold);
    assert_eq!((b[3].start_time, b[3].end_time), (START + 6 * 3600, START + 8 * 3600 - 900));
    assert!(b[2].price > b[0].price);
    assert_eq!(s.date_time, START + 17);
}

#[test]
fn no_tariffs_is_an_error() {
    let mut s = Schedule::new(&config());
    let r = s.update_scheduling(&Vec::new(), &Vec::new(), &Vec::new(), 0, 0, START);
    assert_eq!(r.err().unwrap().0, "no tariffs for the hours ahead");
    assert!(s.blocks.is_empty());
}

#[test]
fn plan_covers_the_day_ahead_only() {
    let mut buy = vec![500_000i64; 30];
    buy[3] = 3_000_000;
    let mut t = tariffs(&buy, 0);
    // a tariff before the hour of the schedule is out of scope
    t.insert(0, TariffValues { valid_time: START - 3600, price: 0, buy: 9_000_000, sell: 0 });
    let mut s = Schedule::new(&config());
    let r = s.update_scheduling(&t, &production(&[0; 30]), &consumption(&[700; 30]), 4_000, 250_000, START + 3599);
    let (horizon, _) = r.ok().unwrap();
    assert_eq!(horizon.tariffs.length, 24);
    assert_eq!(horizon.tariffs.buy[3], 3_000_000);
    assert_eq!(horizon.tariffs.start_time, START);
    check_invariants(&s.blocks, 24, 100);
    assert_eq!(s.blocks[0].soc_in, 50);
    assert_eq!(s.blocks[0].charge_tariff_in, 250_000);
}

#[test]
fn sell_tariff_is_weighted() {
    let mut c = config();
    c.sell_priority = 250;
    let mut s = Schedule::new(&c);
    let mut t = tariffs(&[500_000; 3], 1_000_001);
    t[1].sell = -1_000_001;
    let (horizon, _) = s
        .update_scheduling(&t, &Vec::new(), &Vec::new(), 0, 0, START)
        .ok()
        .unwrap();
    assert_eq!(horizon.tariffs.sell[0], 250_000);
    assert_eq!(horizon.tariffs.sell[1], -250_000);
    assert_eq!(horizon.net_prod[0], 0);
    check_invariants(&s.blocks, 3, 100);
}

#[test]
fn buy_tariff_below_nothing_is_planned_as_free() {
    let mut s = Schedule::new(&config());
    let t = tariffs(&[-300_000, 2_000_000, -100_000_000, 700_000], 0);
    let (horizon, _) = s
        .update_scheduling(&t, &Vec::new(), &consumption(&[0, 2_000, 0, 0]), 0, 0, START)
        .ok()
        .unwrap();
    assert_eq!(horizon.tariffs.length, 4);
    assert_eq!(horizon.tariffs.buy[0], 0);
    assert_eq!(horizon.tariffs.buy[1], 2_000_000);
    assert_eq!(horizon.tariffs.buy[2], 0);
    assert_eq!(horizon.tariffs.buy[3], 700_000);
    check_invariants(&s.blocks, 4, 100);
    // charging in the first hour costs nothing, and pays in the second
    assert_eq!(s.blocks[0].block_type, BlockType::Charge);
    assert_eq!(s.blocks[0].price, 0);
    assert_eq!(s.blocks[0].charge_tariff_out, 0);
    assert_eq!(s.blocks[1].block_type, BlockType::Use);
    assert_eq!(s.blocks[1].start_time, START + 3600);
    assert_eq!(s.blocks[1].price, 2_000 * 2_000_000);
}

#[test]
fn faulty_inputs_are_errors() {
    let text = |r: Result<_, mygrid::errors::SchedulingError>| r.err().unwrap().0;
    let mut bad = config();
    bad.soc_wh = 0;
    let mut s = Schedule::new(&bad);
    assert_eq!(
        text(s.update_scheduling(&tariffs(&[1; 3], 0), &Vec::new(), &Vec::new(), 0, 0, START).map(|_| ())),
        "parameters outside limits"
    );
    let mut s = Schedule::new(&config());
    assert_eq!(
        text(s.update_scheduling(&tariffs(&[1, -100_000_001, 1], 0), &Vec::new(), &Vec::new(), 0, 0, START).map(|_| ())),
        "tariff outside limits"
    );
    assert_eq!(
        text(s.update_scheduling(&tariffs(&[1; 3], 100_000_001), &Vec::new(), &Vec::new(), 0, 0, START).map(|_| ())),
        "tariff outside limits"
    );
    assert_eq!(
        text(
            s.update_scheduling(
                &tariffs(&[1; 3], 0),
                &production(&[0, 100_000_001, 0]),
                &Vec::new(),
                0,
                0,
                START
            )
            .map(|_| ())
        ),
        "estimate outside limits"
    );
    assert_eq!(
        text(s.update_scheduling(&tariffs(&[1; 3], 0), &Vec::new(), &Vec::new(), 100_000_001, 0, START).map(|_| ())),
        "parameters outside limits"
    );
    assert_eq!(
        text(s.update_scheduling(&tariffs(&[1; 3], 0), &Vec::new(), &Vec::new(), 0, 0, START + 86_400).map(|_| ())),
        "no tariffs for the hours ahead"
    );
    assert!(s.blocks.is_empty());
}

#[test]
fn blocks_are_looked_up_and_updated() {
    let buy = [500_000i64, 500_000, 500_000, 3_000_000, 3_000_000, 3_000_000, 500_000, 500_000];
    let mut s = Schedule::new(&config());
    s.update_scheduling(&tariffs(&buy, 0), &production(&[0; 8]), &consumption(&[1000; 8]), 0, 0, START)
        .ok()
        .unwrap();
    let b = s.get_block(START + 3 * 3600 + 5).ok().unwrap();
    assert_eq!(b.block_type, BlockType::Use);
    assert_eq!(b.get_age(START + 5 * 3600 + 59), 2);
    assert_eq!(b.get_age(START), -3);
    assert!(b.is_active(START + 6 * 3600 - 1));
    assert!(!b.is_active(START + 6 * 3600));
    assert!(!b.is_charge());
    assert_eq!(
        s.get_block(START + 8 * 3600).err().unwrap().0,
        "no block in schedule corresponding to the time"
    );
    s.update_block_status(START + 10, Status::Started);
    assert_eq!(s.blocks[0].status, Status::Started);
    assert!(s.blocks[0].is_charge());
    assert_eq!(s.blocks[1].status, Status::Waiting);
    s.update_block_status(START + 8 * 3600, Status::Error);
    assert!(s.blocks.iter().all(|b| b.status != Status::Error));

    let mut charge = s.blocks[0];
    s.update_block(&mut charge, Status::Full(25, START + 1800));
    assert_eq!(charge.status, Status::Full(25, START + 1800));
    assert_eq!((charge.soc_out, charge.charge_out), (25, 1500));
    assert_eq!(charge.charge_tariff_out, 500_000);
    let mut usage = s.blocks[2];
    s.update_block(&mut usage, Status::Full(25, START));
    assert_eq!(usage.soc_out, 10);
    assert_eq!(usage.status, Status::Full(25, START));
}

fn day_tariffs() -> Vec<i64> {
    let mut buy = vec![500_000i64; 24];
    for h in 3..6 {
        buy[h] = 3_000_000;
    }
    buy
}

#[test]
fn pure_valley_charge() {
    // cheap hours 0-2, dear hours 3-5, a load that takes all of the battery in three hours
    let mut load = [0u64; 24];
    for h in 3..6 {
        load[h] = 4450;
    }
    let mut s = Schedule::new(&config());
    let (_, plan) = s
        .update_scheduling(&tariffs(&day_tariffs(), 0), &production(&[0; 24]), &consumption(&load), 0, 0, START)
        .ok()
        .unwrap();
    let first = plan.first.unwrap();
    assert!(plan.second.is_none());
    assert_eq!((first.seek, first.target, first.use_start), (0, 90, 3));
    check_invariants(&s.blocks, 24, 100);
    let seen: Vec<(BlockType, u64, u64, u8, u8)> = s
        .blocks
        .iter()
        .map(|b| (b.block_type, (b.start_time - START) / 3600, (b.end_time + 900 - START) / 3600, b.soc_in, b.soc_out))
        .collect();
    assert_eq!(
        seen,
        vec![
            (BlockType::Charge, 0, 3, 10, 100),
            (BlockType::Use, 3, 6, 100, 10),
            (BlockType::Hold, 6, 24, 10, 10),
        ]
    );
    let charge = s.blocks[0];
    let usage = s.blocks[1];
    assert_eq!(charge.price, 9000 * 500_000);
    assert_eq!(usage.price, 3 * 4450 * 3_000_000);
    assert!(usage.price > charge.price);
    assert!(usage.price + usage.overflow_price - charge.price > 0);
    assert_eq!(charge.charge_tariff_out, 500_000);
    assert_eq!(usage.charge_tariff_in, 500_000);
    assert_eq!(usage.charge_tariff_out, 0);
}

#[test]
fn pv_overflow_is_sold_and_free_energy_is_used() {
    let mut buy = day_tariffs();
    for h in 18..21 {
        buy[h] = 3_000_000;
    }
    let mut load = [0u64; 24];
    let mut pv = [0u64; 24];
    for h in 3..6 {
        load[h] = 4450;
    }
    for h in 18..21 {
        load[h] = 4450;
    }
    for h in 10..15 {
        pv[h] = 6000;
    }
    let mut s = Schedule::new(&config());
    let (_, plan) = s
        .update_scheduling(&tariffs(&buy, 200_000), &production(&pv), &consumption(&load), 0, 0, START)
        .ok()
        .unwrap();
    assert!(plan.first.is_some());
    assert!(plan.second.is_some());
    check_invariants(&s.blocks, 24, 100);
    let seen: Vec<(BlockType, u64, u64, u8, u8)> = s
        .blocks
        .iter()
        .map(|b| (b.block_type, (b.start_time - START) / 3600, (b.end_time + 900 - START) / 3600, b.soc_in, b.soc_out))
        .collect();
    assert_eq!(
        seen,
        vec![
            (BlockType::Charge, 0, 3, 10, 100),
            (BlockType::Use, 3, 6, 100, 10),
            (BlockType::Hold, 6, 11, 10, 70),
            (BlockType::Use, 11, 21, 70, 10),
            (BlockType::Hold, 21, 24, 10, 10),
        ]
    );
    // what the panels give is free: the use block begins as soon as the battery holds
    // something, and what does not fit is sold
    let hold = s.blocks[2];
    assert_eq!((hold.overflow, hold.charge_tariff_out), (0, 0));
    let usage = s.blocks[3];
    assert_eq!(usage.overflow, 5 * 6000 - 9000);
    assert_eq!(usage.overflow_price, 21_000 * 200_000);
    assert_eq!(usage.price, 3 * 4450 * 3_000_000);
    assert_eq!(usage.charge_tariff_out, 0);
    // at most two charge blocks and two use blocks
    assert!(s.blocks.iter().filter(|b| b.block_type == BlockType::Charge).count() <= 2);
    assert!(s.blocks.iter().filter(|b| b.block_type == BlockType::Use).count() <= 2);
}

#[test]
fn no_use_block_below_the_lowest_tariff() {
    let mut c = config();
    c.min_use_tariff = 3_500_000;
    let mut load = [0u64; 24];
    for h in 3..6 {
        load[h] = 4450;
    }
    let mut s = Schedule::new(&c);
    let (_, plan) = s
        .update_scheduling(&tariffs(&day_tariffs(), 0), &production(&[0; 24]), &consumption(&load), 0, 0, START)
        .ok()
        .unwrap();
    assert!(plan.first.is_none());
    assert_eq!(s.blocks.len(), 1);
    assert_eq!(s.blocks[0].block_type, BlockType::Use);
    assert_eq!(s.blocks[0].price, 0);
    check_invariants(&s.blocks, 24, 100);
}

use mygrid::optimizer::{
    charge_cost_charge_end, seek_best, seek_charge, seek_use, trim_and_tail, update_for_pv,
    use_block_sums, Battery, Carry, Horizon,
};
use mygrid::scheduler::{BlockType, Tariffs};

fn battery() -> Battery {
    Battery {
        bat_wh: 9_000,
        soc_wh: 100,
        charge_wh_hour: 3_000,
        charge_efficiency: 900,
        discharge_efficiency: 900,
        min_use_tariff: 500_000,
    }
}

fn horizon(buy: &[u64], sell: i64, net: &[i64]) -> Horizon {
    let mut b = [0u64; 24];
    let mut s = [0i64; 24];
    let mut n = [0i64; 24];
    for i in 0..buy.len() {
        b[i] = buy[i];
        s[i] = sell;
        n[i] = net[i];
    }
    Horizon {
        battery: battery(),
        tariffs: Tariffs { buy: b, sell: s, length: buy.len(), start_time: 0 },
        net_prod: n,
    }
}

#[test]
fn inputs_are_checked_against_limits() {
    let h = horizon(&[1_000_000; 4], 300_000, &[6000, -6000, 0, 0]);
    assert!(h.is_valid());
    let mut wild = h;
    wild.net_prod[1] = -100_000_001;
    assert!(!wild.is_valid());
    let mut wild = h;
    wild.tariffs.buy[3] = 100_000_001;
    assert!(!wild.is_valid());
    wild.tariffs.length = 3;
    assert!(wild.is_valid());
    wild.tariffs.length = 0;
    assert!(!wild.is_valid());
    let mut wild = h;
    wild.battery.charge_efficiency = 0;
    assert!(!wild.is_valid());
    assert!(Carry { level: 90, tariff: 100_000_000_000 }.is_valid());
    assert!(!Carry { level: 91, tariff: 0 }.is_valid());
    assert!(!Carry { level: 0, tariff: 100_000_000_001 }.is_valid());
}

#[test]
fn hold_takes_pv_and_sells_overflow() {
    let h = horizon(&[1_000_000; 4], 300_000, &[6000, 6000, 0, 0]);
    let s = update_for_pv(&h, BlockType::Hold, 0, 2, Carry { level: 50, tariff: 1_000_000 });
    assert_eq!(s.kind, BlockType::Hold);
    assert_eq!((s.start, s.size), (0, 2));
    assert_eq!((s.level_in, s.level_out), (50, 90));
    assert_eq!(s.overflow, 8000);
    assert_eq!(s.overflow_price, 8000 * 300_000);
    assert_eq!(s.tariff_in, 1_000_000);
    assert_eq!(s.tariff_out, 555_555);
    assert!(s.tariff_out < s.tariff_in);
    assert_eq!(s.price, 0);
}

#[test]
fn hold_keeps_charge_under_load() {
    let h = horizon(&[1_000_000; 4], 300_000, &[-2000, -2000, 500, 0]);
    let s = update_for_pv(&h, BlockType::Hold, 0, 3, Carry { level: 50, tariff: 1_000_000 });
    assert_eq!((s.level_in, s.level_out), (50, 55));
    assert_eq!(s.overflow, 0);
    assert_eq!(s.tariff_out, 1_000_000 * 50 / 55);
}

#[test]
fn use_drains_with_discharge_loss() {
    let h = horizon(&[1_000_000; 4], 300_000, &[-1000, -1000, 0, 0]);
    let s = update_for_pv(&h, BlockType::Use, 0, 1, Carry { level: 50, tariff: 1_000_000 });
    // 1000 Wh of load take 1111 Wh from the battery: 3889 Wh are left, nearest level 39
    assert_eq!((s.level_in, s.level_out), (50, 39));
    assert_eq!(s.tariff_out, 1_000_000);
    let s = update_for_pv(&h, BlockType::Use, 0, 2, Carry { level: 50, tariff: 1_000_000 });
    assert_eq!(s.level_out, 28);
}

#[test]
fn emptied_battery_has_no_cost() {
    let h = horizon(&[1_000_000; 4], 300_000, &[-9000, 2000, 0, 0]);
    let s = update_for_pv(&h, BlockType::Use, 0, 2, Carry { level: 50, tariff: 1_000_000 });
    assert_eq!(s.level_out, 20);
    assert_eq!(s.tariff_out, 0);
    let s = update_for_pv(&h, BlockType::Use, 0, 1, Carry { level: 50, tariff: 1_000_000 });
    assert_eq!((s.level_out, s.tariff_out), (0, 0));
}

#[test]
fn block_of_no_hours_changes_nothing() {
    let h = horizon(&[1_000_000; 4], 300_000, &[6000, 6000, 0, 0]);
    for kind in [BlockType::Hold, BlockType::Use] {
        let s = update_for_pv(&h, kind, 2, 2, Carry { level: 37, tariff: 123 });
        assert_eq!((s.size, s.level_in, s.level_out), (0, 37, 37));
        assert_eq!((s.tariff_out, s.overflow, s.overflow_price), (123, 0, 0));
    }
}

#[test]
fn charge_is_priced_hour_by_hour() {
    let t = horizon(&[1_000_000, 2_000_000, 4_000_000], 0, &[0, 0, 0]).tariffs;
    assert_eq!(
        charge_cost_charge_end(&t, 3000, 0, 7000),
        (3000 * 1_000_000 + 3000 * 2_000_000 + 1000 * 4_000_000, 3, 0)
    );
    assert_eq!(charge_cost_charge_end(&t, 3000, 1, 3000), (3000 * 2_000_000, 2, 0));
    assert_eq!(charge_cost_charge_end(&t, 3000, 1, 3001), (3000 * 2_000_000 + 4_000_000, 3, 0));
    assert_eq!(charge_cost_charge_end(&t, 3000, 2, 5000), (3000 * 4_000_000, 3, 2000));
    assert_eq!(charge_cost_charge_end(&t, 3000, 3, 5000), (0, 3, 5000));
    assert_eq!(charge_cost_charge_end(&t, 3000, 0, 0), (0, 0, 0));
}

#[test]
fn charge_block_with_leading_hold() {
    let h = horizon(&[500_000, 600_000, 700_000, 800_000], 0, &[0; 4]);
    let (lead, charge) = seek_charge(&h, 0, 1, 60, Carry { level: 20, tariff: 300_000 }).unwrap();
    assert_eq!((lead.kind, lead.start, lead.size), (BlockType::Hold, 0, 1));
    assert_eq!((lead.level_in, lead.level_out), (20, 20));
    // 4000 Wh to store take 4445 Wh from the grid: one full hour and 1445 Wh
    assert_eq!((charge.kind, charge.start, charge.size), (BlockType::Charge, 1, 2));
    assert_eq!((charge.level_in, charge.level_out), (20, 60));
    assert_eq!(charge.price, 3000 * 600_000 + 1445 * 700_000);
    assert_eq!(
        charge.tariff_out as i64,
        (2000 * 300_000 + 3000 * 600_000 + 1445 * 700_000) / 6000
    );
}

#[test]
fn charge_to_level_already_held_has_no_hours() {
    let h = horizon(&[500_000; 4], 0, &[0; 4]);
    let (_, charge) = seek_charge(&h, 0, 2, 20, Carry { level: 20, tariff: 300_000 }).unwrap();
    assert_eq!((charge.start, charge.size, charge.price), (2, 0, 0));
    assert_eq!((charge.level_out, charge.tariff_out), (20, 300_000));
}

#[test]
fn charge_that_does_not_end_in_time_is_none() {
    let h = horizon(&[500_000; 4], 0, &[0; 4]);
    assert!(seek_charge(&h, 0, 3, 90, Carry { level: 0, tariff: 0 }).is_none());
    assert!(seek_charge(&h, 0, 3, 27, Carry { level: 0, tariff: 0 }).is_some());
    assert!(seek_charge(&h, 0, 3, 28, Carry { level: 0, tariff: 0 }).is_none());
}

#[test]
fn use_goes_on_while_buying_costs_more() {
    let h = horizon(&[3_000_000, 3_000_000, 400_000, 3_000_000], 0, &[-1000; 4]);
    let (rest, usage) = seek_use(&h, 0, 0, Carry { level: 50, tariff: 500_000 }).unwrap();
    assert_eq!(rest.size, 0);
    assert_eq!((usage.kind, usage.start, usage.size), (BlockType::Use, 0, 2));
    assert_eq!(usage.price, 2 * 1000 * 3_000_000);
    assert_eq!((usage.level_in, usage.level_out), (50, 28));
    assert_eq!(use_block_sums(&h, 0, 2), (6_000_000_000, 6_000_000));
}

#[test]
fn use_block_must_be_worth_it() {
    // buying costs less than what the battery holds did
    let h = horizon(&[400_000; 4], 0, &[-1000; 4]);
    assert!(seek_use(&h, 0, 0, Carry { level: 50, tariff: 500_000 }).is_none());
    // the mean buy tariff is above the cost, but not above the cost over the charge efficiency
    let h = horizon(&[540_000; 4], 0, &[-100; 4]);
    assert!(seek_use(&h, 0, 0, Carry { level: 50, tariff: 500_000 }).is_none());
    let h = horizon(&[560_000; 4], 0, &[-100; 4]);
    assert!(seek_use(&h, 0, 0, Carry { level: 50, tariff: 500_000 }).is_some());
    // below the lowest tariff that is set for using
    let h = horizon(&[450_000; 4], 0, &[-100; 4]);
    assert!(seek_use(&h, 0, 0, Carry { level: 50, tariff: 100_000 }).is_none());
    // an empty battery is not used
    let h = horizon(&[3_000_000; 4], 0, &[-100; 4]);
    assert!(seek_use(&h, 0, 0, Carry { level: 0, tariff: 0 }).is_none());
}

#[test]
fn two_pairs_are_found() {
    let mut h = horizon(&[500_000, 3_000_000, 500_000, 3_000_000], 0, &[-1000; 4]);
    h.battery.charge_efficiency = 1000;
    h.battery.discharge_efficiency = 1000;
    let carry = Carry { level: 0, tariff: 0 };
    let plan = seek_best(&h, carry);
    let a = plan.first.unwrap();
    let b = plan.second.unwrap();
    assert_eq!((a.seek, a.target, a.use_start), (0, 1, 1));
    assert_eq!((b.seek, b.target, b.use_start), (2, 1, 3));
    let spans = trim_and_tail(&h, carry, &plan);
    let kinds: Vec<(BlockType, usize, usize)> = spans.iter().map(|s| (s.kind, s.start, s.size)).collect();
    assert_eq!(
        kinds,
        vec![
            (BlockType::Charge, 0, 1),
            (BlockType::Use, 1, 1),
            (BlockType::Charge, 2, 1),
            (BlockType::Use, 3, 1),
        ]
    );
    assert_eq!(spans[0].price, 100 * 500_000);
    assert_eq!(spans[1].price, 1000 * 3_000_000);
    assert_eq!(spans[0].tariff_out, 500_000);
    assert_eq!((spans[1].level_in, spans[1].level_out), (1, 0));
}

#[test]
fn baseline_when_nothing_is_worth_it() {
    let h = horizon(&[400_000; 6], 100_000, &[-500, 2000, 12_000, -500, -500, -500]);
    let carry = Carry { level: 30, tariff: 200_000 };
    let plan = seek_best(&h, carry);
    assert!(plan.first.is_none());
    assert!(plan.second.is_none());
    let spans = trim_and_tail(&h, carry, &plan);
    assert_eq!(spans.len(), 1);
    let s = spans[0];
    assert_eq!((s.kind, s.start, s.size), (BlockType::Use, 0, 6));
    assert_eq!(s.level_in, 30);
    // 3000 - 555 + 2000 + 12000 overflows by 7445; three hours of load follow
    assert_eq!(s.overflow, 7445);
    assert_eq!((s.price, s.overflow_price), (0, 0));
    assert_eq!(s.level_out, 73);
    assert_eq!(s.tariff_out, 200_000 * 30 / 73);
}

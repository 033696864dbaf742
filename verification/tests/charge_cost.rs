use mygrid::charge::{
    dilute, history_touches_floor, peaks_and_valleys, peaks_rise, update_stored_charge_cost, Value,
    ValueType,
};

const ONE: u64 = 1_000_000;

#[test]
fn drain_to_floor_resets_cost() {
    let history = vec![80u8, 60, 40, 10, 15, 25, 40];
    assert_eq!(update_stored_charge_cost(&history, ONE), 0);
}

#[test]
fn peaks_dilute_cost() {
    // sets out at 50; peak 70, valley 60, peak 80: the valley over the peak
    // that follows it, 60/80.
    let history = vec![50u8, 70, 60, 80];
    assert_eq!(update_stored_charge_cost(&history, ONE), 750_000);
    // two valleys, each with its peak: 40/60, then 30/90, each rounded down
    let twice = vec![70u8, 40, 60, 30, 90];
    let after_first = ONE * 40 / 60;
    assert_eq!(after_first, 666_666);
    assert_eq!(update_stored_charge_cost(&twice, ONE), after_first * 30 / 90);
    assert_eq!(update_stored_charge_cost(&twice, ONE), 222_222);
}

#[test]
fn valley_dilutes_by_valley_over_peak() {
    assert_eq!(update_stored_charge_cost(&vec![70u8, 60, 80], ONE), 750_000);
    assert_eq!(update_stored_charge_cost(&vec![70u8, 20, 80], 400_000), 100_000);
    assert_eq!(update_stored_charge_cost(&vec![70u8, 60, 80], 0), 0);
    // a fall that has not turned yet dilutes nothing
    assert_eq!(update_stored_charge_cost(&vec![50u8, 70, 60], ONE), ONE);
}

#[test]
fn any_sample_at_floor_resets_cost() {
    assert_eq!(update_stored_charge_cost(&vec![10u8], ONE), 0);
    assert_eq!(update_stored_charge_cost(&vec![5u8, 5, 5], ONE), 0);
    assert_eq!(update_stored_charge_cost(&vec![50u8, 9, 50], ONE), 0);
    assert_eq!(update_stored_charge_cost(&vec![50u8, 60, 70, 3], ONE), 0);
}

#[test]
fn rising_history_keeps_cost() {
    assert_eq!(update_stored_charge_cost(&vec![20u8, 30, 40], ONE), ONE);
    assert_eq!(update_stored_charge_cost(&vec![20u8, 30], ONE), ONE);
    assert_eq!(update_stored_charge_cost(&vec![11u8, 12, 50, 100], 123_456), 123_456);
    assert_eq!(update_stored_charge_cost(&vec![20u8, 20, 30, 30, 40], ONE), ONE);
    assert_eq!(update_stored_charge_cost(&vec![20u8, 30, 40], 0), 0);
    // from the floor the battery holds nothing that was paid for
    assert_eq!(update_stored_charge_cost(&vec![10u8, 30, 40], ONE), 0);
}

#[test]
fn history_without_turning_point_keeps_cost() {
    assert_eq!(update_stored_charge_cost(&Vec::new(), ONE), ONE);
    assert_eq!(update_stored_charge_cost(&vec![42u8], ONE), ONE);
    assert_eq!(update_stored_charge_cost(&vec![42u8, 42, 42], ONE), ONE);
}

#[test]
fn falling_history_keeps_cost() {
    assert_eq!(update_stored_charge_cost(&vec![90u8, 70, 50, 30], ONE), ONE);
}

#[test]
fn plateaus_count_once() {
    let plain = vec![50u8, 70, 60, 80];
    let repeated = vec![50u8, 50, 70, 70, 70, 60, 60, 80, 80];
    assert_eq!(
        update_stored_charge_cost(&plain, ONE),
        update_stored_charge_cost(&repeated, ONE)
    );
    assert_eq!(update_stored_charge_cost(&repeated, ONE), 750_000);
    let pv = peaks_and_valleys(&repeated);
    assert_eq!(pv.len(), 3);
    assert_eq!(pv[0], Value { value_type: ValueType::Peak, value: 70 });
    assert_eq!(pv[1], Value { value_type: ValueType::Valley, value: 60 });
    assert_eq!(pv[2], Value { value_type: ValueType::Peak, value: 80 });
}

#[test]
fn plateau_on_a_slope_is_no_turning_point() {
    let pv = peaks_and_valleys(&vec![20u8, 30, 30, 40]);
    assert_eq!(pv.len(), 1);
    assert_eq!(pv[0], Value { value_type: ValueType::Peak, value: 40 });
    let pv = peaks_and_valleys(&vec![90u8, 70, 70, 40, 40, 60]);
    assert_eq!(pv.len(), 2);
    assert_eq!(pv[0], Value { value_type: ValueType::Valley, value: 40 });
    assert_eq!(pv[1], Value { value_type: ValueType::Peak, value: 60 });
}

#[test]
fn first_sample_is_no_turning_point() {
    assert!(peaks_and_valleys(&vec![50u8]).is_empty());
    assert!(peaks_and_valleys(&vec![50u8, 50]).is_empty());
    let pv = peaks_and_valleys(&vec![50u8, 40]);
    assert_eq!(pv, vec![Value { value_type: ValueType::Valley, value: 40 }]);
    let pv = peaks_and_valleys(&vec![50u8, 50, 60]);
    assert_eq!(pv, vec![Value { value_type: ValueType::Peak, value: 60 }]);
}

#[test]
fn cost_never_rises() {
    let histories: Vec<Vec<u8>> = vec![
        vec![11, 100, 11, 100],
        vec![100, 11, 100],
        vec![30, 31, 30, 31, 30],
        vec![99, 98, 97],
    ];
    for h in histories {
        assert!(update_stored_charge_cost(&h, 123_456_789) <= 123_456_789);
    }
}

#[test]
fn dilute_scales_at_peaks_only() {
    let points = vec![
        Value { value_type: ValueType::Peak, value: 90 },
        Value { value_type: ValueType::Valley, value: 30 },
        Value { value_type: ValueType::Peak, value: 60 },
    ];
    assert!(peaks_rise(&points));
    assert_eq!(dilute(&points, 1000), 500);
    let falling = vec![
        Value { value_type: ValueType::Valley, value: 60 },
        Value { value_type: ValueType::Peak, value: 30 },
    ];
    assert!(!peaks_rise(&falling));
    assert!(peaks_rise(&Vec::new()));
    assert!(peaks_rise(&peaks_and_valleys(&vec![50u8, 70, 60, 80, 80, 10])));
}

#[test]
fn floor_is_found_anywhere() {
    assert!(history_touches_floor(&vec![50u8, 10]));
    assert!(history_touches_floor(&vec![0u8, 50]));
    assert!(!history_touches_floor(&vec![11u8, 50]));
    assert!(!history_touches_floor(&Vec::new()));
}

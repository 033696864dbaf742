use mygrid::scheduler::BlockType;
use mygrid::time_blocks::{
    add_hold_blocks, check_tariffs, count_run, create_schedule, filter_out_subsets, find_pairs,
    get_charge_block, get_use_block, sum_window, Slot,
};

fn sample_day() -> Vec<u64> {
    vec![
        10, 10, 10, 50, 50, 20, 20, 20, 100, 100, 100, 100, 100, 100, 20, 20, 5, 5, 5, 80, 80, 10,
        10, 10,
    ]
}

fn slot(kind: BlockType, start: usize, end: usize, sum: u64) -> Slot {
    Slot { kind, start, end, sum }
}

#[test]
fn day_is_tiled_with_blocks() {
    let s = create_schedule(&sample_day()).unwrap();
    let seen: Vec<(BlockType, usize, usize, u64)> =
        s.blocks.iter().map(|b| (b.block_type, b.start_hour, b.end_hour, b.mean_price)).collect();
    assert_eq!(
        seen,
        vec![
            (BlockType::Charge, 0, 2, 10),
            (BlockType::Hold, 3, 7, 32),
            (BlockType::Use, 8, 12, 100),
            (BlockType::Hold, 13, 15, 46),
            (BlockType::Charge, 16, 18, 5),
            (BlockType::Use, 19, 23, 38),
        ]
    );
    assert_eq!(s.blocks[1].hour_price, vec![50, 50, 20, 20, 20]);
    assert_eq!(s.blocks[2].min_soc_on_grid, Some(10));
    assert_eq!(s.blocks[0].min_soc_on_grid, None);
    assert!(s.blocks.iter().all(|b| b.max_soc == 100));
}

#[test]
fn flat_tariffs_give_one_hold_block() {
    let s = create_schedule(&vec![10; 24]).unwrap();
    assert_eq!(s.blocks.len(), 1);
    let b = &s.blocks[0];
    assert_eq!((b.block_type, b.start_hour, b.end_hour, b.mean_price), (BlockType::Hold, 0, 23, 10));
    assert_eq!(b.hour_price.len(), 24);
}

#[test]
fn tariffs_must_be_those_of_a_day() {
    assert!(create_schedule(&vec![10; 23]).is_none());
    assert!(create_schedule(&vec![10; 25]).is_none());
    assert!(create_schedule(&Vec::new()).is_none());
    let mut wild = vec![10; 24];
    wild[23] = 1_000_000_000_001;
    assert!(create_schedule(&wild).is_none());
    assert!(!check_tariffs(&wild));
    wild[23] = 1_000_000_000_000;
    assert!(check_tariffs(&wild));
}

#[test]
fn cheapest_window_is_the_first_of_the_cheapest() {
    let t = sample_day();
    assert_eq!(get_charge_block(&t, 3, 0, 5), Some(slot(BlockType::Charge, 0, 2, 30)));
    assert_eq!(get_charge_block(&t, 3, 13, 18), Some(slot(BlockType::Charge, 16, 18, 15)));
    assert_eq!(get_charge_block(&t, 3, 21, 23), Some(slot(BlockType::Charge, 21, 23, 30)));
    assert_eq!(get_charge_block(&t, 3, 22, 23), None);
    assert_eq!(get_charge_block(&t, 3, 24, 23), None);
    assert_eq!(get_charge_block(&vec![7; 24], 3, 4, 9), Some(slot(BlockType::Charge, 4, 6, 21)));
    assert_eq!(get_charge_block(&t, 24, 0, 23), Some(slot(BlockType::Charge, 0, 23, 1035)));
    assert_eq!(sum_window(&t, 3, 5), 160);
    assert_eq!(sum_window(&t, 3, 0), 0);
}

#[test]
fn use_blocks_are_dear_and_apart() {
    let t = sample_day();
    assert_eq!(
        get_use_block(&t, 13, 5, 3, 23),
        vec![slot(BlockType::Use, 8, 12, 500), slot(BlockType::Use, 19, 20, 160)]
    );
    assert_eq!(get_use_block(&t, 7, 5, 19, 23), vec![slot(BlockType::Use, 19, 23, 190)]);
    assert_eq!(get_use_block(&t, 101, 5, 0, 23), Vec::new());
    assert_eq!(get_use_block(&t, 13, 5, 23, 3), Vec::new());
    assert_eq!(count_run(&t, 13, 12, 5), 4);
    assert_eq!(count_run(&t, 13, 19, 5), 2);
    assert_eq!(count_run(&t, 13, 16, 5), 0);
    assert_eq!(count_run(&t, 10, 21, 5), 3);
    assert_eq!(count_run(&t, 10, 24, 5), 0);
}

#[test]
fn subsets_and_neighbours_are_filtered_out() {
    let u = |start, end, sum| slot(BlockType::Use, start, end, sum);
    // within the block before
    assert_eq!(filter_out_subsets(&vec![u(1, 5, 50), u(2, 5, 90)]), vec![u(1, 5, 50)]);
    // shares hours: the dearer one stays
    assert_eq!(filter_out_subsets(&vec![u(1, 5, 50), u(2, 6, 60)]), vec![u(2, 6, 60)]);
    assert_eq!(filter_out_subsets(&vec![u(1, 5, 50), u(2, 6, 50)]), vec![u(1, 5, 50)]);
    // right after the block before: no time to charge
    assert_eq!(filter_out_subsets(&vec![u(1, 5, 50), u(6, 7, 90)]), vec![u(1, 5, 50)]);
    assert_eq!(
        filter_out_subsets(&vec![u(1, 5, 50), u(7, 7, 90)]),
        vec![u(1, 5, 50), u(7, 7, 90)]
    );
    assert_eq!(filter_out_subsets(&Vec::new()), Vec::new());
}

#[test]
fn pairs_follow_each_other() {
    let pairs = find_pairs(&sample_day());
    assert_eq!(
        pairs,
        vec![
            slot(BlockType::Charge, 0, 2, 30),
            slot(BlockType::Use, 8, 12, 500),
            slot(BlockType::Charge, 16, 18, 15),
            slot(BlockType::Use, 19, 23, 190),
        ]
    );
    assert!(find_pairs(&vec![3; 24]).is_empty());
    // charge in the second third of the day when the first has no dear hours after it
    let mut late = vec![100u64; 24];
    for h in 8..11 {
        late[h] = 10;
    }
    let pairs = find_pairs(&late);
    assert_eq!(pairs[0], slot(BlockType::Charge, 8, 10, 30));
    assert_eq!(pairs[1], slot(BlockType::Use, 11, 15, 500));
}

#[test]
fn holds_fill_the_free_hours() {
    let t = vec![1u64; 24];
    let r = add_hold_blocks(&t, &Vec::new());
    assert_eq!(r, vec![slot(BlockType::Hold, 0, 23, 24)]);
    let r = add_hold_blocks(&t, &vec![slot(BlockType::Charge, 0, 2, 3), slot(BlockType::Use, 3, 23, 21)]);
    assert_eq!(r.len(), 2);
    let r = add_hold_blocks(&t, &vec![slot(BlockType::Charge, 5, 7, 3)]);
    assert_eq!(
        r,
        vec![
            slot(BlockType::Hold, 0, 4, 5),
            slot(BlockType::Charge, 5, 7, 3),
            slot(BlockType::Hold, 8, 23, 16),
        ]
    );
}

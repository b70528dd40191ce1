use chip_grid::board::Board;
use chip_grid::chips::{chip_setup, ChipData, ChipLib, ChipType};
use chip_grid::error::GridError;
use chip_grid::value::{recompute, GridValue};

fn chip(c_type: ChipType, value: u32, increase: u32, more: u32, add: u32, targets: Option<Vec<i32>>) -> ChipData {
    ChipData {
        name: "chip".to_string(),
        value,
        c_type,
        increase,
        more,
        add,
        eff: 100,
        targets,
    }
}

fn board_with(chips: &[(i32, i32)]) -> Board {
    let mut board = Board::new();
    for (cell, id) in chips {
        board.place(*cell, *id).unwrap();
    }
    board
}

fn evaluate(lib: &ChipLib, chips: &[(i32, i32)]) -> GridValue {
    recompute(&board_with(chips), lib).unwrap()
}

#[test]
fn empty_board_is_worth_nothing() {
    let lib = chip_setup();
    let g = evaluate(&lib, &[]);
    assert_eq!(g.off, 0);
    assert_eq!(g.def, 0);
    assert_eq!(g.value_grid, vec![0u64; 54]);
    assert!(g.type_grid.iter().all(|t| *t == ChipType::Empty));
    assert_eq!(g.flat_grid, vec![0u64; 54]);
    assert_eq!(g.increase_grid, vec![100u64; 54]);
    assert_eq!(g.more_grid, vec![100u64; 54]);
    assert_eq!(g.effect_grid, vec![100u64; 54]);
}

#[test]
fn single_defensive_chip_anywhere() {
    let mut lib = chip_setup();
    lib.add(5, chip(ChipType::Defensive, 1, 0, 0, 0, None));
    for cell in [0, 1, 26, 27, 53] {
        for id in [1, 5] {
            let g = evaluate(&lib, &[(cell, id)]);
            assert_eq!(g.def, 1);
            assert_eq!(g.off, 0);
            assert_eq!(g.value_grid[cell as usize], 1);
        }
    }
}

#[test]
fn seed_chips_add_up() {
    let lib = chip_setup();
    let g = evaluate(&lib, &[(0, 1), (1, 1), (2, 2), (40, 2), (53, 2)]);
    assert_eq!(g.def, 2);
    assert_eq!(g.off, 3);
}

#[test]
fn increase_buffs_a_matching_neighbour() {
    let mut lib = chip_setup();
    lib.add(3, chip(ChipType::Offensive, 1, 100, 0, 0, Some(vec![9])));
    let g = evaluate(&lib, &[(0, 3), (9, 2)]);
    assert_eq!(g.increase_grid[9], 200);
    assert_eq!(g.value_grid[0], 1);
    assert_eq!(g.value_grid[9], 2);
    assert_eq!(g.off, 3);
    assert_eq!(g.def, 0);
}

#[test]
fn offset_one_from_cell_zero_is_no_target() {
    let mut lib = chip_setup();
    lib.add(3, chip(ChipType::Offensive, 1, 100, 0, 0, Some(vec![1])));
    let g = evaluate(&lib, &[(0, 3), (1, 2)]);
    assert_eq!(g.increase_grid[1], 100);
    assert_eq!(g.value_grid[1], 1);
    assert_eq!(g.off, 2);
}

#[test]
fn buff_skips_a_target_of_another_kind() {
    let mut lib = chip_setup();
    lib.add(3, chip(ChipType::Offensive, 1, 100, 50, 100, Some(vec![9])));
    lib.add(4, chip(ChipType::Defensive, 1, 0, 0, 0, None));
    let g = evaluate(&lib, &[(0, 3), (9, 4)]);
    assert_eq!(g.flat_grid[9], 100);
    assert_eq!(g.increase_grid[9], 100);
    assert_eq!(g.more_grid[9], 100);
    assert_eq!(g.off, 1);
    assert_eq!(g.def, 1);
}

#[test]
fn defensive_buff_skips_offensive_target() {
    let mut lib = chip_setup();
    lib.add(3, chip(ChipType::Defensive, 1, 100, 0, 100, Some(vec![9])));
    let g = evaluate(&lib, &[(0, 3), (9, 2)]);
    assert_eq!(g.flat_grid[9], 100);
    assert_eq!(g.def, 1);
    assert_eq!(g.off, 1);
}

#[test]
fn buff_skips_an_empty_target() {
    let mut lib = chip_setup();
    lib.add(3, chip(ChipType::Offensive, 1, 100, 0, 100, Some(vec![9])));
    let g = evaluate(&lib, &[(0, 3)]);
    assert_eq!(g.flat_grid[9], 0);
    assert_eq!(g.increase_grid[9], 100);
    assert_eq!(g.off, 1);
}

#[test]
fn more_compounds_across_chips() {
    let mut lib = chip_setup();
    lib.add(3, chip(ChipType::Offensive, 1, 0, 50, 0, Some(vec![9])));
    lib.add(4, chip(ChipType::Offensive, 1, 0, 50, 0, Some(vec![-9])));
    lib.add(5, chip(ChipType::Offensive, 4, 0, 0, 0, None));
    let g = evaluate(&lib, &[(0, 3), (18, 4), (9, 5)]);
    assert_eq!(g.more_grid[9], 225);
    // 4 * 2.25 = 9, where 4 * 2.0 would give 8
    assert_eq!(g.value_grid[9], 9);
    assert_eq!(g.off, 11);
}

#[test]
fn increase_adds_across_chips() {
    let mut lib = chip_setup();
    lib.add(3, chip(ChipType::Offensive, 1, 50, 50, 0, Some(vec![9])));
    lib.add(4, chip(ChipType::Offensive, 1, 50, 50, 0, Some(vec![-9])));
    lib.add(5, chip(ChipType::Offensive, 4, 0, 0, 0, None));
    let g = evaluate(&lib, &[(0, 3), (18, 4), (9, 5)]);
    assert_eq!(g.increase_grid[9], 200);
    assert_eq!(g.more_grid[9], 225);
    // 4 * 2.0 * 2.25 = 18
    assert_eq!(g.value_grid[9], 18);
    assert_eq!(g.off, 20);
}

#[test]
fn add_raises_the_flat_layer() {
    let mut lib = chip_setup();
    lib.add(3, chip(ChipType::Defensive, 1, 0, 0, 100, Some(vec![9, 10])));
    let g = evaluate(&lib, &[(0, 3), (9, 1), (10, 1)]);
    assert_eq!(g.flat_grid[9], 200);
    assert_eq!(g.flat_grid[10], 200);
    assert_eq!(g.def, 5);
}

#[test]
fn chip_can_buff_its_own_cell() {
    let mut lib = chip_setup();
    lib.add(3, chip(ChipType::Offensive, 1, 100, 0, 0, Some(vec![0])));
    let g = evaluate(&lib, &[(30, 3)]);
    assert_eq!(g.value_grid[30], 2);
    assert_eq!(g.off, 2);
}

#[test]
fn odd_column_uses_its_own_table() {
    let mut lib = chip_setup();
    lib.add(3, chip(ChipType::Offensive, 1, 100, 0, 0, Some(vec![17])));
    let g = evaluate(&lib, &[(1, 3), (18, 2)]);
    assert_eq!(g.value_grid[18], 2);
    assert_eq!(g.off, 3);
}

#[test]
fn value_is_floored_per_cell() {
    let mut lib = chip_setup();
    let mut d = chip(ChipType::Offensive, 3, 0, 0, 0, None);
    d.eff = 150;
    lib.add(3, d);
    let g = evaluate(&lib, &[(0, 3), (1, 3)]);
    assert_eq!(g.effect_grid[0], 150);
    // 4.5 per cell floors to 4 before the sum
    assert_eq!(g.value_grid[0], 4);
    assert_eq!(g.value_grid[1], 4);
    assert_eq!(g.off, 8);
}

#[test]
fn layers_saturate_at_the_cap() {
    let mut lib = chip_setup();
    lib.add(3, chip(ChipType::Offensive, 20_000, 0, 0, 0, None));
    let g = evaluate(&lib, &[(0, 3)]);
    assert_eq!(g.flat_grid[0], 1_000_000);
    assert_eq!(g.value_grid[0], 10_000);
    assert_eq!(g.off, 10_000);
}

#[test]
fn full_board_of_largest_values() {
    let mut lib = chip_setup();
    let mut d = chip(ChipType::Offensive, u32::MAX, u32::MAX, u32::MAX, u32::MAX, Some(vec![0, 0, 9, -9]));
    d.eff = u32::MAX;
    lib.add(3, d);
    let cells: Vec<(i32, i32)> = (0..54).map(|i| (i, 3)).collect();
    let g = evaluate(&lib, &cells);
    assert_eq!(g.value_grid[0], 10_000_000_000_000_000);
    assert_eq!(g.off, 54 * 10_000_000_000_000_000);
    assert_eq!(g.def, 0);
}

#[test]
fn unknown_chip_on_the_board() {
    let lib = chip_setup();
    let board = board_with(&[(4, 7)]);
    assert!(matches!(recompute(&board, &lib), Err(GridError::ChipNotFound)));
}

#[test]
fn illegal_offset_in_a_definition() {
    let mut lib = chip_setup();
    lib.add(3, chip(ChipType::Offensive, 1, 0, 0, 0, Some(vec![3])));
    let board = board_with(&[(0, 3)]);
    assert!(matches!(recompute(&board, &lib), Err(GridError::InvalidRange)));
    // off the board the offset is never looked up
    let g = evaluate(&lib, &[(52, 3)]);
    assert_eq!(g.off, 1);
}

#[test]
fn missing_chip_reported_before_illegal_offset() {
    let mut lib = chip_setup();
    lib.add(3, chip(ChipType::Offensive, 1, 0, 0, 0, Some(vec![3])));
    let board = board_with(&[(0, 3), (50, 9)]);
    assert!(matches!(recompute(&board, &lib), Err(GridError::ChipNotFound)));
}

#[test]
fn recompute_twice_gives_the_same_state() {
    let mut lib = chip_setup();
    lib.add(3, chip(ChipType::Offensive, 1, 50, 50, 100, Some(vec![9, 10, -9])));
    let board = board_with(&[(0, 3), (9, 2), (10, 2), (20, 1)]);
    let a = recompute(&board, &lib).unwrap();
    let b = recompute(&board, &lib).unwrap();
    assert_eq!(a.off, b.off);
    assert_eq!(a.def, b.def);
    assert_eq!(a.flat_grid, b.flat_grid);
    assert_eq!(a.increase_grid, b.increase_grid);
    assert_eq!(a.more_grid, b.more_grid);
    assert_eq!(a.effect_grid, b.effect_grid);
    assert_eq!(a.type_grid, b.type_grid);
    assert_eq!(a.value_grid, b.value_grid);
}

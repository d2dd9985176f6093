use game_of_life::universe::{is_seedable, GridError, Universe};

/// An 8 x 8 universe with no live cell: the glider is toggled away.
fn empty_universe() -> Universe {
    let mut universe = Universe::new(8, 8).unwrap();
    let glider: Vec<(usize, usize)> = universe.get_live_cells().to_vec();
    universe.toggle_cells(&glider).unwrap();
    assert!(universe.get_live_cells().is_empty());
    universe
}

fn live(universe: &Universe) -> Vec<(usize, usize)> {
    universe.get_live_cells().to_vec()
}

#[test]
fn new_universe_holds_the_glider() {
    let universe = Universe::new(8, 8).unwrap();
    assert_eq!(universe.width(), 8);
    assert_eq!(universe.height(), 8);
    // anchor = 8 * 8 / 4 + 8 / 4 = 18: entries 9, 10, 18, 19 and 25
    assert_eq!(live(&universe), vec![(1, 1), (1, 2), (2, 2), (2, 3), (3, 1)]);
    assert_eq!(universe.get_live_cells().len(), 5);
}

#[test]
fn new_universe_of_one_hundred_cells_a_side() {
    let universe = Universe::new(100, 100).unwrap();
    // anchor = 100 * 100 / 4 + 100 / 4 = 2525
    assert_eq!(live(&universe), vec![(24, 24), (24, 25), (25, 25), (25, 26), (26, 24)]);
}

#[test]
fn new_universe_that_is_not_square() {
    let universe = Universe::new(4, 6).unwrap();
    assert_eq!(universe.width(), 4);
    assert_eq!(universe.height(), 6);
    // anchor = 4 * 4 / 4 + 6 / 4 = 5: entries 0, 1, 5, 6 and 8
    assert_eq!(live(&universe), vec![(0, 0), (0, 1), (1, 1), (1, 2), (2, 0)]);
}

#[test]
fn smallest_square_universe() {
    let universe = Universe::new(4, 4).unwrap();
    // anchor = 4 * 4 / 4 + 4 / 4 = 5
    assert_eq!(live(&universe), vec![(0, 0), (0, 1), (1, 1), (1, 2), (2, 0)]);
}

#[test]
fn narrow_universe_folds_the_glider() {
    // Two cells wide, the entry after the anchor and the entry below it
    // are one and the same: anchor = 2 * 2 / 4 + 8 / 4 = 3.
    assert!(is_seedable(2, 8));
    let universe = Universe::new(2, 8).unwrap();
    assert_eq!(live(&universe), vec![(0, 0), (0, 1), (1, 1), (2, 0)]);
}

#[test]
fn zero_side_is_refused() {
    assert!(matches!(Universe::new(0, 8), Err(GridError::InvalidDimension)));
    assert!(matches!(Universe::new(8, 0), Err(GridError::InvalidDimension)));
    assert!(matches!(Universe::new(0, 0), Err(GridError::InvalidDimension)));
}

#[test]
fn sizes_that_hold_the_glider() {
    assert!(is_seedable(4, 4));
    assert!(is_seedable(8, 8));
    assert!(is_seedable(4, 6));
    assert!(is_seedable(100, 100));
    assert!(!is_seedable(3, 3));
    assert!(!is_seedable(0, 5));
    assert!(!is_seedable(5, 0));
    assert!(!is_seedable(100, 4));
    assert!(!is_seedable(usize::MAX, usize::MAX));
    assert!(!is_seedable(usize::MAX, 1));
}

#[test]
fn get_cell_reads_the_current_generation() {
    let universe = Universe::new(8, 8).unwrap();
    assert_eq!(universe.get_cell(1, 1), Ok(true));
    assert_eq!(universe.get_cell(2, 3), Ok(true));
    assert_eq!(universe.get_cell(0, 0), Ok(false));
    assert_eq!(universe.get_cell(3, 2), Ok(false));
    assert_eq!(universe.get_cell(7, 7), Ok(false));
}

#[test]
fn get_cell_outside_the_grid_is_refused() {
    let universe = Universe::new(8, 8).unwrap();
    assert_eq!(universe.get_cell(8, 0), Err(GridError::OutOfBounds));
    assert_eq!(universe.get_cell(0, 8), Err(GridError::OutOfBounds));
    assert_eq!(universe.get_cell(usize::MAX, usize::MAX), Err(GridError::OutOfBounds));
}

#[test]
fn tick_moves_the_glider_on() {
    let mut universe = Universe::new(8, 8).unwrap();
    universe.tick();
    assert_eq!(live(&universe), vec![(1, 1), (1, 2), (1, 3), (2, 3), (3, 2)]);
    assert_eq!(universe.get_cell(2, 2), Ok(false));
    assert_eq!(universe.get_cell(1, 3), Ok(true));
    universe.tick();
    assert_eq!(live(&universe), vec![(0, 2), (1, 2), (1, 3), (2, 1), (2, 3)]);
}

#[test]
fn tick_is_a_function_of_the_grid() {
    let mut first = Universe::new(8, 8).unwrap();
    let mut second = Universe::new(8, 8).unwrap();
    for _ in 0..20 {
        first.tick();
        second.tick();
        assert_eq!(live(&first), live(&second));
    }
}

#[test]
fn glider_keeps_five_cells_round_the_torus() {
    let mut universe = Universe::new(8, 8).unwrap();
    for _ in 0..64 {
        universe.tick();
        assert_eq!(universe.get_live_cells().len(), 5);
    }
}

#[test]
fn glider_comes_back_after_a_trip_round_the_torus() {
    // A glider moves one cell along each axis every four generations.
    let mut universe = Universe::new(8, 8).unwrap();
    let start = live(&universe);
    for _ in 0..32 {
        universe.tick();
    }
    assert_eq!(live(&universe), start);
}

#[test]
fn rows_wrap() {
    // A blinker standing across the top edge: rows 7, 0 and 1 of column 3.
    let mut universe = empty_universe();
    universe.toggle_cells(&[(7, 3), (0, 3), (1, 3)]).unwrap();
    universe.tick();
    assert_eq!(live(&universe), vec![(0, 2), (0, 3), (0, 4)]);
    universe.tick();
    assert_eq!(live(&universe), vec![(0, 3), (1, 3), (7, 3)]);
}

#[test]
fn columns_wrap() {
    // A blinker lying across the left edge: columns 7, 0 and 1 of row 3.
    let mut universe = empty_universe();
    universe.toggle_cells(&[(3, 7), (3, 0), (3, 1)]).unwrap();
    universe.tick();
    assert_eq!(live(&universe), vec![(2, 0), (3, 0), (4, 0)]);
    universe.tick();
    assert_eq!(live(&universe), vec![(3, 0), (3, 1), (3, 7)]);
}

#[test]
fn first_and_last_row_are_neighbours() {
    // Three cells in the last row give birth in the first row, above the
    // middle one, and in the row before the last.
    let mut universe = empty_universe();
    universe.toggle_cells(&[(7, 2), (7, 3), (7, 4)]).unwrap();
    universe.tick();
    assert_eq!(live(&universe), vec![(0, 3), (6, 3), (7, 3)]);
}

#[test]
fn block_is_still() {
    let mut universe = empty_universe();
    universe.toggle_cells(&[(3, 3), (3, 4), (4, 3), (4, 4)]).unwrap();
    let block = live(&universe);
    assert_eq!(block, vec![(3, 3), (3, 4), (4, 3), (4, 4)]);
    universe.tick();
    assert_eq!(live(&universe), block);
    universe.tick();
    assert_eq!(live(&universe), block);
}

#[test]
fn block_across_the_corner_is_still() {
    let mut universe = empty_universe();
    universe.toggle_cells(&[(0, 0), (0, 7), (7, 0), (7, 7)]).unwrap();
    let block = live(&universe);
    assert_eq!(block, vec![(0, 0), (0, 7), (7, 0), (7, 7)]);
    universe.tick();
    assert_eq!(live(&universe), block);
}

#[test]
fn empty_universe_stays_empty() {
    let mut universe = empty_universe();
    for _ in 0..10 {
        universe.tick();
        assert!(universe.get_live_cells().is_empty());
    }
}

#[test]
fn lone_cell_dies() {
    let mut universe = empty_universe();
    universe.toggle_cell(4, 4).unwrap();
    universe.tick();
    assert!(universe.get_live_cells().is_empty());
}

#[test]
fn crowded_cell_dies_and_corners_survive() {
    // A plus sign: the centre has four neighbours and dies, the arms have
    // one each and die, the four corners have three each and are born.
    let mut universe = empty_universe();
    universe.toggle_cells(&[(3, 4), (4, 3), (4, 4), (4, 5), (5, 4)]).unwrap();
    universe.tick();
    assert_eq!(
        live(&universe),
        vec![(3, 3), (3, 4), (3, 5), (4, 3), (4, 5), (5, 3), (5, 4), (5, 5)]
    );
}

#[test]
fn reading_the_live_list_twice_gives_the_same() {
    let universe = Universe::new(8, 8).unwrap();
    let first = live(&universe);
    let second = live(&universe);
    assert_eq!(first, second);
}

#[test]
fn live_list_is_in_row_major_order() {
    let mut universe = empty_universe();
    universe.toggle_cells(&[(5, 1), (0, 7), (5, 0), (2, 2), (0, 0)]).unwrap();
    assert_eq!(live(&universe), vec![(0, 0), (0, 7), (2, 2), (5, 0), (5, 1)]);
}

#[test]
fn toggle_cell_flips_one_cell() {
    let mut universe = Universe::new(8, 8).unwrap();
    assert_eq!(universe.toggle_cell(0, 0), Ok(()));
    assert_eq!(universe.get_cell(0, 0), Ok(true));
    assert_eq!(live(&universe), vec![(0, 0), (1, 1), (1, 2), (2, 2), (2, 3), (3, 1)]);
    assert_eq!(universe.toggle_cell(2, 2), Ok(()));
    assert_eq!(universe.get_cell(2, 2), Ok(false));
    assert_eq!(live(&universe), vec![(0, 0), (1, 1), (1, 2), (2, 3), (3, 1)]);
}

#[test]
fn toggle_cell_twice_restores_the_universe() {
    let mut universe = Universe::new(8, 8).unwrap();
    let before = live(&universe);
    universe.toggle_cell(5, 6).unwrap();
    assert_ne!(live(&universe), before);
    universe.toggle_cell(5, 6).unwrap();
    assert_eq!(live(&universe), before);
    universe.toggle_cell(1, 1).unwrap();
    universe.toggle_cell(1, 1).unwrap();
    assert_eq!(live(&universe), before);
}

#[test]
fn toggle_cell_outside_the_grid_is_refused() {
    let mut universe = Universe::new(8, 8).unwrap();
    let before = live(&universe);
    assert_eq!(universe.toggle_cell(8, 0), Err(GridError::OutOfBounds));
    assert_eq!(universe.toggle_cell(0, 8), Err(GridError::OutOfBounds));
    assert_eq!(universe.toggle_cell(9, 9), Err(GridError::OutOfBounds));
    assert_eq!(live(&universe), before);
}

#[test]
fn toggle_cells_is_as_many_single_toggles() {
    let batch: Vec<(usize, usize)> = vec![(0, 0), (1, 1), (7, 7), (2, 3), (4, 4), (0, 0), (6, 1)];
    let mut together = Universe::new(8, 8).unwrap();
    together.toggle_cells(&batch).unwrap();
    let mut one_by_one = Universe::new(8, 8).unwrap();
    for (row, col) in batch.iter() {
        one_by_one.toggle_cell(*row, *col).unwrap();
    }
    assert_eq!(live(&together), live(&one_by_one));
    assert_eq!(live(&together), vec![(1, 2), (2, 2), (3, 1), (4, 4), (6, 1), (7, 7)]);
}

#[test]
fn toggle_cells_flips_a_cell_once_for_each_time_it_is_named() {
    let mut universe = Universe::new(8, 8).unwrap();
    let before = live(&universe);
    universe.toggle_cells(&[(5, 5), (5, 5)]).unwrap();
    assert_eq!(live(&universe), before);
    universe.toggle_cells(&[(5, 5), (5, 5), (5, 5)]).unwrap();
    assert_eq!(universe.get_cell(5, 5), Ok(true));
}

#[test]
fn toggle_cells_of_nothing_changes_nothing() {
    let mut universe = Universe::new(8, 8).unwrap();
    let before = live(&universe);
    assert_eq!(universe.toggle_cells(&[]), Ok(()));
    assert_eq!(live(&universe), before);
}

#[test]
fn toggle_cells_with_one_coordinate_outside_changes_nothing() {
    let mut universe = Universe::new(8, 8).unwrap();
    let before = live(&universe);
    assert_eq!(universe.toggle_cells(&[(0, 0), (8, 1), (4, 4)]), Err(GridError::OutOfBounds));
    assert_eq!(live(&universe), before);
    assert_eq!(universe.get_cell(0, 0), Ok(false));
    assert_eq!(universe.toggle_cells(&[(0, 0), (4, 4), (1, 8)]), Err(GridError::OutOfBounds));
    assert_eq!(live(&universe), before);
}

#[test]
fn set_size_without_a_side_changes_nothing() {
    let mut universe = Universe::new(8, 8).unwrap();
    universe.tick();
    universe.toggle_cell(6, 6).unwrap();
    let before = live(&universe);
    assert_eq!(universe.set_size(None, None), Ok(()));
    assert_eq!(universe.width(), 8);
    assert_eq!(universe.height(), 8);
    assert_eq!(live(&universe), before);
    assert_eq!(universe.get_cell(6, 6), Ok(true));
}

#[test]
fn set_size_with_one_side_reseeds_the_glider() {
    let mut universe = Universe::new(8, 8).unwrap();
    universe.tick();
    universe.toggle_cell(6, 6).unwrap();
    assert_eq!(universe.set_size(Some(10), None), Ok(()));
    assert_eq!(universe.width(), 10);
    assert_eq!(universe.height(), 8);
    // anchor = 10 * 10 / 4 + 8 / 4 = 27: entries 16, 17, 27, 28 and 36
    assert_eq!(live(&universe), vec![(1, 6), (1, 7), (2, 7), (2, 8), (3, 6)]);
    assert_eq!(universe.get_cell(6, 6), Ok(false));
    assert_eq!(universe.set_size(None, Some(12)), Ok(()));
    assert_eq!(universe.width(), 10);
    assert_eq!(universe.height(), 12);
    // anchor = 10 * 10 / 4 + 12 / 4 = 28
    assert_eq!(live(&universe), vec![(1, 7), (1, 8), (2, 8), (2, 9), (3, 7)]);
}

#[test]
fn set_size_to_the_same_size_still_resets() {
    let mut universe = Universe::new(8, 8).unwrap();
    let glider = live(&universe);
    universe.tick();
    universe.toggle_cell(6, 6).unwrap();
    assert_eq!(universe.set_size(Some(8), Some(8)), Ok(()));
    assert_eq!(live(&universe), glider);
}

#[test]
fn set_size_is_followed_by_a_correct_step() {
    let mut universe = Universe::new(8, 8).unwrap();
    universe.set_size(Some(12), Some(12)).unwrap();
    // anchor = 12 * 12 / 4 + 12 / 4 = 39
    assert_eq!(live(&universe), vec![(2, 2), (2, 3), (3, 3), (3, 4), (4, 2)]);
    universe.tick();
    assert_eq!(live(&universe), vec![(2, 2), (2, 3), (2, 4), (3, 4), (4, 3)]);
}

#[test]
fn set_size_to_a_zero_side_is_refused() {
    let mut universe = Universe::new(8, 8).unwrap();
    universe.tick();
    let before = live(&universe);
    assert_eq!(universe.set_size(Some(0), None), Err(GridError::InvalidDimension));
    assert_eq!(universe.set_size(None, Some(0)), Err(GridError::InvalidDimension));
    assert_eq!(universe.set_size(Some(0), Some(0)), Err(GridError::InvalidDimension));
    assert_eq!(universe.set_size(Some(5), Some(0)), Err(GridError::InvalidDimension));
    assert_eq!(universe.width(), 8);
    assert_eq!(universe.height(), 8);
    assert_eq!(live(&universe), before);
}

#[test]
fn advance_is_as_many_ticks() {
    let mut stepped = Universe::new(8, 8).unwrap();
    let mut advanced = Universe::new(8, 8).unwrap();
    for _ in 0..7 {
        stepped.tick();
    }
    advanced.advance(7);
    assert_eq!(live(&advanced), live(&stepped));
    advanced.advance(1);
    stepped.tick();
    assert_eq!(live(&advanced), live(&stepped));
}

#[test]
fn advance_by_nothing_changes_nothing() {
    let mut universe = Universe::new(8, 8).unwrap();
    let before = live(&universe);
    universe.advance(0);
    assert_eq!(live(&universe), before);
}

#[test]
fn advance_by_one_is_a_tick() {
    let mut universe = Universe::new(8, 8).unwrap();
    universe.advance(1);
    assert_eq!(live(&universe), vec![(1, 1), (1, 2), (1, 3), (2, 3), (3, 2)]);
}

#[test]
fn column_click_toggles_a_whole_column() {
    let mut universe = Universe::new(8, 8).unwrap();
    let glider: Vec<(usize, usize)> = universe.get_live_cells().to_vec();
    universe.toggle_cells(&glider).unwrap();
    let column = game_of_life::pointer::column_cells(5, universe.height());
    universe.toggle_cells(&column).unwrap();
    assert_eq!(
        live(&universe),
        vec![(0, 5), (1, 5), (2, 5), (3, 5), (4, 5), (5, 5), (6, 5), (7, 5)]
    );
}

#[test]
fn glider_click_draws_a_glider() {
    let mut universe = Universe::new(8, 8).unwrap();
    let glider: Vec<(usize, usize)> = universe.get_live_cells().to_vec();
    universe.toggle_cells(&glider).unwrap();
    let drawn = game_of_life::pointer::glider_cells(4, 4, 8, 8);
    universe.toggle_cells(&drawn).unwrap();
    assert_eq!(live(&universe), vec![(3, 3), (3, 4), (4, 4), (4, 5), (5, 3)]);
}

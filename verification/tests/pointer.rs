use game_of_life::pointer::{column_cells, glider_cells, in_bounds};

#[test]
fn in_bounds_keeps_a_coordinate_on_the_grid() {
    assert_eq!(in_bounds(0, 10), 0);
    assert_eq!(in_bounds(4, 10), 4);
    assert_eq!(in_bounds(9, 10), 9);
}

#[test]
fn in_bounds_brings_a_negative_coordinate_to_the_first_cell() {
    assert_eq!(in_bounds(-1, 10), 0);
    assert_eq!(in_bounds(isize::MIN, 10), 0);
}

#[test]
fn in_bounds_brings_a_large_coordinate_to_the_last_cell() {
    assert_eq!(in_bounds(10, 10), 9);
    assert_eq!(in_bounds(11, 10), 9);
    assert_eq!(in_bounds(isize::MAX, 10), 9);
    assert_eq!(in_bounds(isize::MAX, isize::MAX), (isize::MAX - 1) as usize);
}

#[test]
fn in_bounds_on_a_side_of_one_cell() {
    assert_eq!(in_bounds(-5, 1), 0);
    assert_eq!(in_bounds(0, 1), 0);
    assert_eq!(in_bounds(5, 1), 0);
}

#[test]
fn glider_cells_in_the_middle_of_the_grid() {
    assert_eq!(glider_cells(4, 5, 10, 10), vec![(5, 4), (5, 5), (4, 4), (4, 3), (6, 3)]);
}

#[test]
fn glider_cells_in_the_first_corner_are_brought_onto_the_grid() {
    assert_eq!(glider_cells(0, 0, 10, 10), vec![(0, 0), (0, 1), (0, 0), (0, 0), (1, 0)]);
}

#[test]
fn glider_cells_in_the_last_corner_are_brought_onto_the_grid() {
    assert_eq!(glider_cells(9, 9, 10, 10), vec![(9, 9), (9, 9), (8, 9), (8, 8), (9, 8)]);
}

#[test]
fn glider_cells_off_the_grid() {
    assert_eq!(glider_cells(-7, 30, 10, 12), vec![(11, 0), (11, 0), (11, 0), (11, 0), (11, 0)]);
}

#[test]
fn glider_cells_on_a_grid_that_is_not_square() {
    assert_eq!(glider_cells(6, 2, 8, 3), vec![(2, 6), (2, 7), (1, 6), (1, 5), (2, 5)]);
}

#[test]
fn column_cells_names_one_cell_a_row() {
    assert_eq!(column_cells(3, 4), vec![(0, 3), (1, 3), (2, 3), (3, 3)]);
    assert_eq!(column_cells(0, 1), vec![(0, 0)]);
}

#[test]
fn column_cells_of_no_rows_is_empty() {
    assert!(column_cells(3, 0).is_empty());
}

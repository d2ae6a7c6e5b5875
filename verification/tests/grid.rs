use game_of_life::simulation::{Grid, GridError};

fn grid_with(rows: usize, cols: usize, alive: &[(usize, usize)]) -> Grid {
    let mut grid = Grid::new(rows, cols);
    for &cell in alive {
        grid.set(cell, true).unwrap();
    }
    grid
}

#[test]
fn bounds_are_reported_correctly() {
    let grid = Grid::new(10, 10);

    assert_eq!(10, grid.rows());
    assert_eq!(10, grid.cols());

    assert_eq!(Ok(false), grid.get((9, 9)));
}

#[test]
#[should_panic]
fn horizontal_bound_should_overflow() {
    let grid = Grid::new(10, 10);

    grid.get((10, 9)).unwrap();
}

#[test]
#[should_panic]
fn vertical_bound_should_overflow() {
    let grid = Grid::new(10, 10);

    grid.get((9, 10)).unwrap();
}

#[test]
fn indexing_works() {
    let mut grid = Grid::new(10, 10);

    for i in 0..10 {
        grid.set((i, 0), true).unwrap();
    }

    for x in 0..10 {
        for y in 0..10 {
            if y == 0 {
                assert_eq!(Ok(true), grid.get((x, y)))
            } else {
                assert_eq!(Ok(false), grid.get((x, y)))
            }
        }
    }
}

#[test]
fn neighbours_are_reported_correctly() {
    let mut grid = Grid::new(10, 10);
    grid.set((5, 5), true).unwrap();
    grid.set((4, 4), true).unwrap();
    grid.set((5, 4), true).unwrap();
    grid.set((6, 4), true).unwrap();
    grid.set((4, 6), true).unwrap();

    assert_eq!(4, grid.neighbours((5, 5)));
}

#[test]
fn neighbours_are_reported_correctly_for_corners() {
    let mut grid = Grid::new(10, 10);
    grid.set((1, 0), true).unwrap();
    grid.set((1, 1), true).unwrap();
    grid.set((0, 1), true).unwrap();

    assert_eq!(3, grid.neighbours((0, 0)));
}

#[test]
fn new_grid_has_its_dimensions_and_only_dead_cells() {
    for &(rows, cols) in &[(1, 1), (3, 7), (7, 3), (10, 10), (1, 20)] {
        let grid = Grid::new(rows, cols);
        assert_eq!(rows, grid.rows());
        assert_eq!(cols, grid.cols());
        for x in 0..cols {
            for y in 0..rows {
                assert_eq!(Ok(false), grid.get((x, y)));
            }
        }
    }
}

#[test]
fn empty_grids_have_no_cell() {
    let none = Grid::new(0, 0);
    assert_eq!(0, none.rows());
    assert_eq!(0, none.cols());
    assert_eq!(Err(GridError::OutOfBounds), none.get((0, 0)));

    let no_rows = Grid::new(0, 5);
    assert_eq!(0, no_rows.rows());
    assert_eq!(5, no_rows.cols());
    assert_eq!(Err(GridError::OutOfBounds), no_rows.get((0, 0)));
    assert_eq!(Err(GridError::OutOfBounds), no_rows.get((4, 0)));

    let mut no_cols = Grid::new(5, 0);
    assert_eq!(5, no_cols.rows());
    assert_eq!(0, no_cols.cols());
    assert_eq!(Err(GridError::OutOfBounds), no_cols.get((0, 4)));
    assert_eq!(Err(GridError::OutOfBounds), no_cols.set((0, 0), true));
}

#[test]
fn get_outside_the_grid_is_out_of_bounds() {
    let grid = grid_with(4, 6, &[(0, 0), (5, 3)]);

    assert_eq!(Err(GridError::OutOfBounds), grid.get((6, 0)));
    assert_eq!(Err(GridError::OutOfBounds), grid.get((0, 4)));
    assert_eq!(Err(GridError::OutOfBounds), grid.get((6, 4)));
    assert_eq!(Err(GridError::OutOfBounds), grid.get((usize::MAX, 0)));
    assert_eq!(Err(GridError::OutOfBounds), grid.get((0, usize::MAX)));
    assert_eq!(Err(GridError::OutOfBounds), grid.get((usize::MAX, usize::MAX)));
    // A column past the last one is no cell of the next row.
    assert_eq!(Err(GridError::OutOfBounds), grid.get((6, 2)));
    assert_eq!(Ok(true), grid.get((5, 3)));
    assert_eq!(Ok(false), grid.get((3, 3)));
}

#[test]
fn set_outside_the_grid_is_out_of_bounds_and_changes_nothing() {
    let mut grid = grid_with(4, 6, &[(1, 1)]);

    assert_eq!(Err(GridError::OutOfBounds), grid.set((6, 0), true));
    assert_eq!(Err(GridError::OutOfBounds), grid.set((0, 4), true));
    assert_eq!(Err(GridError::OutOfBounds), grid.set((6, 3), true));
    assert_eq!(Err(GridError::OutOfBounds), grid.set((usize::MAX, usize::MAX), true));

    for x in 0..6 {
        for y in 0..4 {
            assert_eq!(Ok((x, y) == (1, 1)), grid.get((x, y)));
        }
    }
}

#[test]
fn set_changes_one_cell_and_no_other() {
    let mut grid = Grid::new(3, 5);

    assert_eq!(Ok(()), grid.set((4, 2), true));
    assert_eq!(Ok(()), grid.set((0, 1), true));
    for x in 0..5 {
        for y in 0..3 {
            assert_eq!(Ok((x, y) == (4, 2) || (x, y) == (0, 1)), grid.get((x, y)));
        }
    }

    assert_eq!(Ok(()), grid.set((4, 2), false));
    for x in 0..5 {
        for y in 0..3 {
            assert_eq!(Ok((x, y) == (0, 1)), grid.get((x, y)));
        }
    }
}

#[test]
fn cells_are_laid_out_with_the_column_count_as_stride() {
    // On a grid that is not square, (1, 2) and (2, 1) are different cells,
    // and so are the last cell of one row and the first of the next.
    let mut grid = Grid::new(4, 3);
    grid.set((1, 2), true).unwrap();
    assert_eq!(Ok(false), grid.get((2, 1)));
    grid.set((2, 0), true).unwrap();
    assert_eq!(Ok(false), grid.get((0, 1)));
    assert_eq!(Ok(true), grid.get((2, 0)));
    assert_eq!(Ok(true), grid.get((1, 2)));
}

#[test]
fn repeated_reads_agree() {
    let grid = grid_with(10, 10, &[(2, 3), (9, 9)]);

    for &cell in &[(2, 3), (3, 2), (9, 9), (0, 0), (10, 0), (0, 10)] {
        let first = grid.get(cell);
        assert_eq!(first, grid.get(cell));
        assert_eq!(first, grid.get(cell));
    }
    let count = grid.neighbours((2, 2));
    assert_eq!(count, grid.neighbours((2, 2)));
    assert_eq!(1, count);
}

#[test]
fn a_clone_is_a_grid_of_its_own() {
    let first = grid_with(5, 5, &[(1, 1)]);
    let mut copy = first.clone();

    assert_eq!(5, copy.rows());
    assert_eq!(5, copy.cols());
    assert_eq!(Ok(true), copy.get((1, 1)));

    copy.set((1, 1), false).unwrap();
    copy.set((2, 2), true).unwrap();
    assert_eq!(Ok(true), first.get((1, 1)));
    assert_eq!(Ok(false), first.get((2, 2)));
}

#[test]
fn a_cell_is_not_its_own_neighbour() {
    let grid = grid_with(10, 10, &[(5, 5)]);

    assert_eq!(0, grid.neighbours((5, 5)));
    for &cell in &[(4, 4), (5, 4), (6, 4), (4, 5), (6, 5), (4, 6), (5, 6), (6, 6)] {
        assert_eq!(1, grid.neighbours(cell));
    }
    assert_eq!(0, grid.neighbours((7, 5)));
    assert_eq!(0, grid.neighbours((5, 3)));
}

#[test]
fn a_surrounded_cell_has_eight_neighbours() {
    let mut grid = Grid::new(5, 5);
    for x in 1..4 {
        for y in 1..4 {
            grid.set((x, y), true).unwrap();
        }
    }

    assert_eq!(8, grid.neighbours((2, 2)));
    assert_eq!(3, grid.neighbours((1, 1)));
    assert_eq!(5, grid.neighbours((2, 1)));
    assert_eq!(1, grid.neighbours((0, 0)));
    assert_eq!(2, grid.neighbours((0, 1)));
    assert_eq!(3, grid.neighbours((0, 2)));
}

#[test]
fn neighbours_are_counted_up_to_the_last_row_and_column() {
    let grid = grid_with(10, 10, &[(8, 8), (9, 8), (8, 9)]);
    assert_eq!(3, grid.neighbours((9, 9)));

    let grid = grid_with(10, 10, &[(9, 9)]);
    assert_eq!(1, grid.neighbours((8, 8)));
    assert_eq!(1, grid.neighbours((9, 8)));
    assert_eq!(1, grid.neighbours((8, 9)));
    assert_eq!(0, grid.neighbours((9, 9)));

    // The other two corners, on a grid that is not square.
    let grid = grid_with(4, 7, &[(5, 0), (5, 1), (6, 1), (0, 2), (1, 2), (1, 3)]);
    assert_eq!(3, grid.neighbours((6, 0)));
    assert_eq!(3, grid.neighbours((0, 3)));

    // Along the last row and the last column.
    let grid = grid_with(4, 7, &[(2, 3), (4, 3), (3, 2), (6, 0), (6, 2), (5, 1)]);
    assert_eq!(3, grid.neighbours((3, 3)));
    assert_eq!(3, grid.neighbours((6, 1)));
}

#[test]
fn neighbours_do_not_wrap_around_the_edges() {
    let grid = grid_with(10, 10, &[(0, 0), (0, 5), (5, 0)]);

    assert_eq!(0, grid.neighbours((9, 0)));
    assert_eq!(0, grid.neighbours((0, 9)));
    assert_eq!(0, grid.neighbours((9, 9)));
    assert_eq!(0, grid.neighbours((9, 5)));
    assert_eq!(0, grid.neighbours((5, 9)));
    // The last cell of one row and the first of the next are not adjacent.
    assert_eq!(0, grid.neighbours((9, 4)));
}

#[test]
fn neighbours_on_the_smallest_grids() {
    let grid = grid_with(1, 1, &[(0, 0)]);
    assert_eq!(0, grid.neighbours((0, 0)));

    let grid = grid_with(1, 3, &[(0, 0), (1, 0), (2, 0)]);
    assert_eq!(1, grid.neighbours((0, 0)));
    assert_eq!(2, grid.neighbours((1, 0)));
    assert_eq!(1, grid.neighbours((2, 0)));

    let grid = grid_with(3, 1, &[(0, 0), (0, 2)]);
    assert_eq!(2, grid.neighbours((0, 1)));
    assert_eq!(0, grid.neighbours((0, 0)));
}

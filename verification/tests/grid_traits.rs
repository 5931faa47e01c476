use ixy::grid::impls;
use ixy::grid::GridBuf;
use ixy::Pos;

/// A grid of three columns that holds `data` row by row.
fn grid_of(data: Vec<i32>) -> GridBuf<i32, Vec<i32>> {
    GridBuf::from_row_major(3, data.len() / 3, data).unwrap()
}

#[test]
fn grid_read_from_unchecked_ok() {
    let grid = grid_of(vec![1, 2, 3, 4, 5, 6]);

    assert_eq!(impls::get_from_unchecked(&grid, Pos::new(1, 1)), Some(&5));
}

#[test]
fn grid_read_from_unchecked_invalid_pos() {
    let grid = grid_of(vec![1, 2, 3, 4, 5, 6]);

    assert_eq!(impls::get_from_unchecked(&grid, Pos::new(-1, 1)), None);
    assert_eq!(impls::get_from_unchecked(&grid, Pos::new(1, -1)), None);
}

#[test]
fn grid_read_from_unchecked_out_of_range_pos() {
    let grid = grid_of(vec![1, 2, 3, 4, 5, 6]);

    assert_eq!(impls::get_from_unchecked(&grid, Pos::new(3, 1)), None);
    assert_eq!(impls::get_from_unchecked(&grid, Pos::new(1, 2)), None);
}

#[test]
fn grid_write_from_unchecked_ok() {
    let mut grid = grid_of(vec![1, 2, 3, 4, 5, 6]);

    impls::set_from_unchecked(&mut grid, Pos::new(2, 1), 42);
    assert_eq!(impls::get_from_unchecked(&grid, Pos::new(2, 1)), Some(&42));
}

#[test]
fn grid_write_from_unchecked_invalid_pos() {
    let mut grid = grid_of(vec![1, 2, 3, 4, 5, 6]);

    impls::set_from_unchecked(&mut grid, Pos::new(-1, 0), 99);
    impls::set_from_unchecked(&mut grid, Pos::new(0, -1), 99);
    // Data should remain unchanged
    assert_eq!(grid.as_ref(), &[1, 2, 3, 4, 5, 6]);
}

#[test]
fn grid_write_from_unchecked_out_of_range_pos() {
    let mut grid = grid_of(vec![1, 2, 3, 4, 5, 6]);

    impls::set_from_unchecked(&mut grid, Pos::new(3, 0), 99);
    impls::set_from_unchecked(&mut grid, Pos::new(0, 2), 99);
    // Data should remain unchanged
    assert_eq!(grid.as_ref(), &[1, 2, 3, 4, 5, 6]);
}

#[test]
fn grid_write_and_read_consistency() {
    let mut grid = grid_of(vec![0, 0, 0, 0, 0, 0]);

    impls::set_from_unchecked(&mut grid, Pos::new(0, 0), 10);
    impls::set_from_unchecked(&mut grid, Pos::new(1, 0), 20);
    impls::set_from_unchecked(&mut grid, Pos::new(2, 1), 30);

    assert_eq!(impls::get_from_unchecked(&grid, Pos::new(0, 0)), Some(&10));
    assert_eq!(impls::get_from_unchecked(&grid, Pos::new(1, 0)), Some(&20));
    assert_eq!(impls::get_from_unchecked(&grid, Pos::new(2, 1)), Some(&30));
    assert_eq!(impls::get_from_unchecked(&grid, Pos::new(1, 1)), Some(&0));
}

#[test]
fn grid_read_write_consistency() {
    let mut grid = grid_of(vec![0; 6]);

    impls::set_from_unchecked(&mut grid, Pos::new(0, 0), 10);
    impls::set_from_unchecked(&mut grid, Pos::new(1, 0), 20);
    impls::set_from_unchecked(&mut grid, Pos::new(2, 1), 30);

    assert_eq!(impls::get_from_unchecked(&grid, Pos::new(0, 0)), Some(&10));
    assert_eq!(impls::get_from_unchecked(&grid, Pos::new(1, 0)), Some(&20));
    assert_eq!(impls::get_from_unchecked(&grid, Pos::new(2, 1)), Some(&30));
    assert_eq!(impls::get_from_unchecked(&grid, Pos::new(1, 1)), Some(&0));
}

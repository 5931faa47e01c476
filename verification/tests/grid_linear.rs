use ixy::grid::{GridBuf, GridReadMutUnchecked};
use ixy::index::ColMajor;
use ixy::{HasSize, Pos, Size};

#[derive(Debug, Clone, Copy, PartialEq, Eq)]
enum Tile {
    Empty,
    Wall,
}

#[test]
fn impl_invalid_dimensions() {
    // Attempting to create a grid with invalid dimensions should return an error.
    let cells = vec![Tile::Empty; 5];
    let grid = GridBuf::<Tile, Vec<Tile>>::from_row_major(3, 2, cells);
    assert!(grid.is_err());
}

#[test]
fn impl_vec() {
    // Using a vec as a backing-store.
    let cells = vec![Tile::Empty; 6];
    let mut grid = GridBuf::from_row_major(3, 2, cells).unwrap();

    assert_eq!(
        grid.size(),
        Size {
            width: 3,
            height: 2
        }
    );

    assert_eq!(grid.get(Pos::new(0, 0)), Some(&Tile::Empty));

    grid.set(Pos::new(0, 0), Tile::Wall);
    assert_eq!(grid.get(Pos::new(0, 0)), Some(&Tile::Wall));
}

#[test]
fn impl_array() {
    // Using an array as a backing-store.
    let cells = [Tile::Empty; 6];
    let mut grid = GridBuf::from_row_major(3, 2, cells).unwrap();

    assert_eq!(
        grid.size(),
        Size {
            width: 3,
            height: 2
        }
    );

    assert_eq!(grid.get(Pos::new(0, 0)), Some(&Tile::Empty));

    grid.set(Pos::new(0, 0), Tile::Wall);
    assert_eq!(grid.get(Pos::new(0, 0)), Some(&Tile::Wall));
}

#[test]
fn impl_slice() {
    // Using a mutable slice as a backing-store.
    let mut cells = [Tile::Empty; 6];
    let mut grid = GridBuf::from_row_major(3, 2, &mut cells[..]).unwrap();

    assert_eq!(
        grid.size(),
        Size {
            width: 3,
            height: 2
        }
    );

    assert_eq!(grid.get(Pos::new(0, 0)), Some(&Tile::Empty));

    grid.set(Pos::new(0, 0), Tile::Wall);
    assert_eq!(grid.get(Pos::new(0, 0)), Some(&Tile::Wall));
}

#[test]
fn col_major() {
    // Using a vec as a backing-store and iterating over it in column-major order.
    let cells = vec![
        Tile::Empty, Tile::Wall,
        Tile::Wall,  Tile::Empty,
    ];

    let grid = GridBuf::from_col_major(2, 2, cells).unwrap();
    let mut iter = grid.into_cells().into_iter();
    assert_eq!(iter.next(), Some(Tile::Empty));
    assert_eq!(iter.next(), Some(Tile::Wall));
    assert_eq!(iter.next(), Some(Tile::Wall));
    assert_eq!(iter.next(), Some(Tile::Empty));
    assert_eq!(iter.next(), None);
}

#[test]
fn as_ref() {
    let cells = vec![Tile::Empty; 6];
    let grid = GridBuf::from_row_major(3, 2, cells).unwrap();
    let slice: &[Tile] = grid.as_ref();
    assert_eq!(slice.len(), 6);
}

#[test]
fn as_mut() {
    let cells = vec![Tile::Empty; 6];
    let mut grid = GridBuf::from_row_major(3, 2, cells).unwrap();
    let slice: &mut [Tile] = grid.as_mut();
    assert_eq!(slice.len(), 6);
}

#[test]
fn into_iter() {
    // Using a vec as a backing-store and iterating over it.
    let cells = vec![
        Tile::Empty, Tile::Wall,
        Tile::Wall,  Tile::Empty,
    ];

    let grid = GridBuf::from_row_major(2, 2, cells).unwrap();
    let mut iter = grid.into_cells().into_iter();
    assert_eq!(iter.next(), Some(Tile::Empty));
    assert_eq!(iter.next(), Some(Tile::Wall));
    assert_eq!(iter.next(), Some(Tile::Wall));
    assert_eq!(iter.next(), Some(Tile::Empty));
    assert_eq!(iter.next(), None);
}

#[test]
fn linear_size() {
    let cells = vec![Tile::Empty; 6];
    let grid = GridBuf::from_row_major(3, 2, cells).unwrap();
    assert_eq!(grid.width(), 3);
    assert_eq!(grid.height(), 2);
}

#[test]
fn col_major_cells_lie_column_by_column() {
    // 3 wide, 2 high: the columns (1, 2), (3, 4), (5, 6) lie one after the other.
    let grid = GridBuf::<i32, Vec<i32>, ColMajor>::from_col_major(3, 2, vec![1, 2, 3, 4, 5, 6])
        .unwrap();
    assert_eq!(grid.get(Pos::new(0, 0)), Some(&1));
    assert_eq!(grid.get(Pos::new(0, 1)), Some(&2));
    assert_eq!(grid.get(Pos::new(1, 0)), Some(&3));
    assert_eq!(grid.get(Pos::new(2, 1)), Some(&6));
    assert_eq!(grid.get(Pos::new(3, 0)), None);
    assert_eq!(grid.get(Pos::new(0, 2)), None);
}

#[test]
fn set_out_of_bounds_changes_nothing() {
    let mut grid = GridBuf::from_row_major(3, 2, vec![1, 2, 3, 4, 5, 6]).unwrap();
    grid.set(Pos::new(3, 0), 99);
    grid.set(Pos::new(0, 2), 99);
    grid.set(Pos::new(-1, 0), 99);
    assert_eq!(grid.as_ref(), &[1, 2, 3, 4, 5, 6]);
}

#[test]
fn from_cells_rejects_overflowing_dimensions() {
    let grid = GridBuf::<u8, Vec<u8>>::from_cells(usize::MAX, 2, vec![]);
    assert!(grid.is_err());
}

#[test]
fn linear_get_mut() {
    let cells = vec![Tile::Empty; 6];
    let mut grid = GridBuf::from_row_major(3, 2, cells).unwrap();

    assert_eq!(grid.get_mut(Pos::new(0, 0)), Some(&mut Tile::Empty));
}

#[test]
fn get_mut_unchecked() {
    let cells = vec![Tile::Empty; 6];
    let mut grid = GridBuf::from_row_major(3, 2, cells).unwrap();

    assert_eq!(grid.get_mut_unchecked(0, 0), &mut Tile::Empty);
    *grid.get_mut_unchecked(0, 0) = Tile::Wall;

    assert_eq!(grid.get(Pos::new(0, 0)), Some(&Tile::Wall));
}

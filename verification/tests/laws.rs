use ixy::grid::GridBuf;
use ixy::index;
use ixy::index::Layout;
use ixy::layout::{Block, ColumnMajor, Linear, RowMajor, Traversal};
use ixy::{Pos, Rect, Size};

/// Every position of a `width` by `height` grid comes back from its index.
fn comes_back<L: Linear>(width: usize, height: usize, stride: usize) {
    for y in 0..height {
        for x in 0..width {
            let pos = Pos::new(x, y);
            let index = L::pos_to_index(pos, stride);
            assert_eq!(L::index_to_pos(index, stride), pos, "at {x}, {y}");
        }
    }
}

#[test]
fn index_to_pos_inverts_pos_to_index() {
    comes_back::<RowMajor>(5, 3, 5);
    // The stride of a column-major grid is the length of its columns.
    comes_back::<ColumnMajor>(5, 3, 3);
    comes_back::<Block<2, 2>>(6, 4, 6);
    // Tiles in column-major order come back where the columns of tiles are
    // no longer than the rows of tiles.
    comes_back::<Block<3, 2, ColumnMajor, RowMajor>>(6, 4, 6);
    comes_back::<Block<2, 2, RowMajor, ColumnMajor>>(4, 4, 4);
    comes_back::<Block<4, 4, RowMajor, Block<2, 2>>>(8, 8, 8);
}

#[test]
fn indices_of_a_grid_are_the_numbers_below_its_area() {
    let mut seen = vec![false; 24];
    for y in 0..4 {
        for x in 0..6 {
            let index = Block::<2, 2>::pos_to_index(Pos::new(x, y), 6);
            assert!(!seen[index]);
            seen[index] = true;
        }
    }
    assert!(seen.iter().all(|s| *s));
}

/// The positions are those of the rectangle, each exactly once.
fn covers<L: Traversal>(rect: Rect<i32>) {
    let mut given = L::iter_pos(rect);
    assert_eq!(given.len(), rect.area());
    for pos in &given {
        assert!(rect.contains_pos(*pos));
    }
    given.sort();
    given.dedup();
    assert_eq!(given.len(), rect.area());
    let mut plain = RowMajor::iter_pos(rect);
    plain.sort();
    assert_eq!(given, plain);
}

#[test]
fn iter_pos_gives_every_position_once() {
    covers::<RowMajor>(Rect::from_ltwh(-2, 3, 5, 4));
    covers::<ColumnMajor>(Rect::from_ltwh(-2, 3, 5, 4));
    covers::<Block<2, 2>>(Rect::from_ltwh(-2, 3, 6, 4));
    covers::<Block<3, 2, ColumnMajor, RowMajor>>(Rect::from_ltwh(1, 1, 6, 6));
    covers::<Block<4, 4, RowMajor, Block<2, 2>>>(Rect::from_ltwh(0, 0, 8, 4));
    covers::<RowMajor>(Rect::from_ltwh(7, 7, 0, 0));
}

#[test]
fn block_leaves_out_what_no_whole_tile_covers() {
    let rect: Rect<i32> = Rect::from_ltwh(0, 0, 3, 3);
    let positions = Block::<2, 2>::iter_pos(rect);
    assert_eq!(
        positions,
        &[Pos::new(0, 0), Pos::new(1, 0), Pos::new(0, 1), Pos::new(1, 1)]
    );
}

#[test]
fn block_of_row_major_tiles_goes_tile_by_tile() {
    let rect: Rect<i32> = Rect::from_ltwh(2, 1, 4, 6);
    let tiled = Block::<2, 3>::iter_pos(rect);
    let tiles = RowMajor::iter_rect(rect, Size::new(2, 3));
    assert_eq!(tiles.len(), 4);
    assert_eq!(tiled.len(), 24);
    for (t, tile) in tiles.iter().enumerate() {
        let cells = RowMajor::iter_pos(*tile);
        assert_eq!(cells.len(), 6);
        for (k, cell) in cells.iter().enumerate() {
            assert_eq!(tiled[t * 6 + k], *cell);
        }
    }
    // 4 x 4 values from 0 to 15: the first tile comes before the second.
    let positions = Block::<2, 2>::iter_pos(Rect::from_ltwh(0, 0, 4, 4));
    assert_eq!(
        &positions[..4],
        &[Pos::new(0, 0), Pos::new(1, 0), Pos::new(0, 1), Pos::new(1, 1)]
    );
    assert_eq!(positions[4], Pos::new(2, 0));
}

/// What the slice of `rect` holds at the offset of a position within `rect`
/// is what `data` holds at the offset of the position within the grid.
fn reads_the_same<L: Linear>(size: Size, stride: usize, rect: Rect<usize>, own_stride: usize) {
    let data: Vec<usize> = (0..size.width * size.height).collect();
    let part = L::slice_rect_aligned(&data, size, rect).expect("aligned");
    assert_eq!(part.len(), rect.area());
    for y in rect.top()..rect.bottom() {
        for x in rect.left()..rect.right() {
            let within = L::pos_to_index(Pos::new(x - rect.left(), y - rect.top()), own_stride);
            let direct = L::pos_to_index(Pos::new(x, y), stride);
            assert_eq!(part[within], data[direct], "at {x}, {y}");
        }
    }
}

#[test]
fn aligned_slices_read_the_same_as_the_data() {
    let size = Size::new(4, 3);
    reads_the_same::<RowMajor>(size, 4, Rect::from_ltwh(0, 1, 4, 2), 4);
    reads_the_same::<RowMajor>(size, 4, Rect::from_ltwh(1, 2, 2, 1), 2);
    reads_the_same::<ColumnMajor>(size, 3, Rect::from_ltwh(1, 0, 2, 3), 3);
    reads_the_same::<ColumnMajor>(size, 3, Rect::from_ltwh(3, 1, 1, 2), 2);
    let size = Size::new(6, 4);
    reads_the_same::<Block<2, 2>>(size, 6, Rect::from_ltwh(2, 2, 4, 2), 4);
    reads_the_same::<Block<2, 2>>(size, 6, Rect::from_ltwh(0, 0, 6, 4), 6);
    reads_the_same::<Block<2, 2>>(size, 6, Rect::from_ltwh(4, 0, 2, 2), 2);
}

#[test]
fn misaligned_slices_are_none() {
    let data: Vec<usize> = (0..12).collect();
    let size = Size::new(4, 3);
    assert_eq!(RowMajor::slice_rect_aligned(&data, size, Rect::from_ltwh(0, 0, 3, 2)), None);
    assert_eq!(RowMajor::rect_to_range(size, Rect::from_ltwh(1, 0, 2, 2)), None);
    assert_eq!(ColumnMajor::slice_rect_aligned(&data, size, Rect::from_ltwh(0, 0, 2, 2)), None);
    assert_eq!(ColumnMajor::rect_to_range(size, Rect::from_ltwh(0, 1, 2, 2)), None);
    assert_eq!(Block::<2, 2>::rect_to_range(Size::new(4, 4), Rect::from_ltwh(0, 0, 3, 2)), None);
    assert_eq!(Block::<2, 2>::rect_to_range(Size::new(4, 4), Rect::from_ltwh(0, 0, 2, 1)), None);
}

#[test]
fn column_major_range_starts_where_the_column_starts() {
    // 2 wide, 4 high: the second column holds the offsets 4 to 7.
    let size = Size::new(2, 4);
    assert_eq!(ColumnMajor::rect_to_range(size, Rect::from_ltwh(1, 0, 1, 4)), Some(4..8));
    assert_eq!(ColumnMajor::rect_to_range(size, Rect::from_ltwh(1, 1, 1, 2)), Some(5..7));
    let data = [0, 1, 2, 3, 4, 5, 6, 7];
    assert_eq!(
        ColumnMajor::slice_rect_aligned(&data, size, Rect::from_ltwh(1, 1, 1, 2)),
        Some(&[5, 6][..])
    );
}

#[test]
fn writing_through_an_aligned_slice_changes_the_data() {
    let mut data = [0, 1, 2, 3, 4, 5, 6, 7];
    let size = Size::new(4, 2);
    {
        let row = RowMajor::slice_rect_aligned_mut(&mut data, size, Rect::from_ltwh(1, 1, 2, 1))
            .unwrap();
        row[0] = 50;
        row[1] = 60;
    }
    assert_eq!(data, [0, 1, 2, 3, 4, 50, 60, 7]);
    {
        let column = ColumnMajor::slice_aligned_mut(&mut data, Size::new(2, 4), 1);
        column[3] = 70;
    }
    assert_eq!(data, [0, 1, 2, 3, 4, 50, 60, 70]);
    assert!(RowMajor::slice_aligned_mut(&mut data, size, 2).is_empty());
}

#[test]
fn every_layout_stores_every_cell_of_a_grid_apart() {
    fn apart<L: Layout>(width: usize, height: usize) {
        let size = Size::new(width, height);
        assert!(L::can_store(size));
        let mut seen = vec![false; width * height];
        for y in 0..height {
            for x in 0..width {
                let index = L::to_1d(Pos::new(x, y), L::stride(size));
                assert!(!seen[index]);
                seen[index] = true;
                assert_eq!(L::to_2d::<usize>(index, L::stride(size)), Pos::new(x, y));
            }
        }
    }
    apart::<index::RowMajor>(5, 3);
    apart::<index::ColMajor>(5, 3);
    apart::<index::Block<2, 3>>(4, 6);
    assert!(!index::Block::<2, 3>::can_store(Size::new(5, 6)));
    assert!(GridBuf::<u8, Vec<u8>, index::Block<2, 3>>::from_cells(5, 6, vec![0; 30]).is_err());
    assert!(GridBuf::<u8, Vec<u8>, index::Block<2, 3>>::from_cells(4, 6, vec![0; 24]).is_ok());
}

use ixy::layout::{Block, ColumnMajor, Linear, RowMajor, Traversal};
use ixy::{Pos, Rect, Size};

#[test]
fn test_block_row_major_blocks_row_major_cells_positions() {
    let rect = Rect::from_ltwh(0, 0, 4, 4);
    let positions: Vec<_> = Block::<2, 2>::iter_pos(rect);

    // 0 1 | 2 3
    // 4 5 | 6 7
    // --- | ---
    // 8 9 | A B
    // C D | E F
    assert_eq!(
        positions,
        &[
            // 0 1
            // 2 3
            Pos::new(0, 0),
            Pos::new(1, 0),
            Pos::new(0, 1),
            Pos::new(1, 1),
            // 4 5
            // 6 7
            Pos::new(2, 0),
            Pos::new(3, 0),
            Pos::new(2, 1),
            Pos::new(3, 1),
            // 8 9
            // A B
            Pos::new(0, 2),
            Pos::new(1, 2),
            Pos::new(0, 3),
            Pos::new(1, 3),
            // C D
            // E F
            Pos::new(2, 2),
            Pos::new(3, 2),
            Pos::new(2, 3),
            Pos::new(3, 3),
        ]
    );
}

#[test]
fn test_block_row_major_big_blocks_row_major_small_blocks() {
    let rect = Rect::from_ltwh(0, 0, 16, 16);
    let size = Size::new(2, 2);
    let blocks: Vec<_> = Block::<4, 4>::iter_rect(rect, size);
    assert_eq!(
        blocks,
        &[
            // Outer Block 0
            // Inner Block 0
            Rect::from_ltwh(0, 0, 2, 2),
            Rect::from_ltwh(2, 0, 2, 2),
            Rect::from_ltwh(0, 2, 2, 2),
            Rect::from_ltwh(2, 2, 2, 2),
            // Inner Block 1
            Rect::from_ltwh(4, 0, 2, 2),
            Rect::from_ltwh(6, 0, 2, 2),
            Rect::from_ltwh(4, 2, 2, 2),
            Rect::from_ltwh(6, 2, 2, 2),
            // Inner Block 2
            Rect::from_ltwh(8, 0, 2, 2),
            Rect::from_ltwh(10, 0, 2, 2),
            Rect::from_ltwh(8, 2, 2, 2),
            Rect::from_ltwh(10, 2, 2, 2),
            // Inner Block 3
            Rect::from_ltwh(12, 0, 2, 2),
            Rect::from_ltwh(14, 0, 2, 2),
            Rect::from_ltwh(12, 2, 2, 2),
            Rect::from_ltwh(14, 2, 2, 2),
            // Outer Block 1
            // Inner Block 4
            Rect::from_ltwh(0, 4, 2, 2),
            Rect::from_ltwh(2, 4, 2, 2),
            Rect::from_ltwh(0, 6, 2, 2),
            Rect::from_ltwh(2, 6, 2, 2),
            // Inner Block 5
            Rect::from_ltwh(4, 4, 2, 2),
            Rect::from_ltwh(6, 4, 2, 2),
            Rect::from_ltwh(4, 6, 2, 2),
            Rect::from_ltwh(6, 6, 2, 2),
            // Inner Block 6
            Rect::from_ltwh(8, 4, 2, 2),
            Rect::from_ltwh(10, 4, 2, 2),
            Rect::from_ltwh(8, 6, 2, 2),
            Rect::from_ltwh(10, 6, 2, 2),
            // Inner Block 7
            Rect::from_ltwh(12, 4, 2, 2),
            Rect::from_ltwh(14, 4, 2, 2),
            Rect::from_ltwh(12, 6, 2, 2),
            Rect::from_ltwh(14, 6, 2, 2),
            // Outer Block 2
            // Inner Block 8
            Rect::from_ltwh(0, 8, 2, 2),
            Rect::from_ltwh(2, 8, 2, 2),
            Rect::from_ltwh(0, 10, 2, 2),
            Rect::from_ltwh(2, 10, 2, 2),
            // Inner Block 9
            Rect::from_ltwh(4, 8, 2, 2),
            Rect::from_ltwh(6, 8, 2, 2),
            Rect::from_ltwh(4, 10, 2, 2),
            Rect::from_ltwh(6, 10, 2, 2),
            // Inner Block A
            Rect::from_ltwh(8, 8, 2, 2),
            Rect::from_ltwh(10, 8, 2, 2),
            Rect::from_ltwh(8, 10, 2, 2),
            Rect::from_ltwh(10, 10, 2, 2),
            // Inner Block B
            Rect::from_ltwh(12, 8, 2, 2),
            Rect::from_ltwh(14, 8, 2, 2),
            Rect::from_ltwh(12, 10, 2, 2),
            Rect::from_ltwh(14, 10, 2, 2),
            // Outer Block 3
            // Inner Block C
            Rect::from_ltwh(0, 12, 2, 2),
            Rect::from_ltwh(2, 12, 2, 2),
            Rect::from_ltwh(0, 14, 2, 2),
            Rect::from_ltwh(2, 14, 2, 2),
            // Inner Block D
            Rect::from_ltwh(4, 12, 2, 2),
            Rect::from_ltwh(6, 12, 2, 2),
            Rect::from_ltwh(4, 14, 2, 2),
            Rect::from_ltwh(6, 14, 2, 2),
            // Inner Block E
            Rect::from_ltwh(8, 12, 2, 2),
            Rect::from_ltwh(10, 12, 2, 2),
            Rect::from_ltwh(8, 14, 2, 2),
            Rect::from_ltwh(10, 14, 2, 2),
            // Inner Block F
            Rect::from_ltwh(12, 12, 2, 2),
            Rect::from_ltwh(14, 12, 2, 2),
            Rect::from_ltwh(12, 14, 2, 2),
            Rect::from_ltwh(14, 14, 2, 2),
        ]
    );
}

#[test]
fn test_block_col_major_blocks_col_major_cells_positions() {
    let rect = Rect::from_ltwh(0, 0, 4, 4);
    let positions: Vec<_> = Block::<2, 2, ColumnMajor>::iter_pos(rect);

    // 0 2 | 8 A
    // 1 3 | 9 B
    // --- | ---
    // 4 6 | C E
    // 5 7 | D F
    assert_eq!(
        positions,
        &[
            // 0 2
            // 1 3
            Pos::new(0, 0),
            Pos::new(0, 1),
            Pos::new(1, 0),
            Pos::new(1, 1),
            // 4 6
            // 5 7
            Pos::new(0, 2),
            Pos::new(0, 3),
            Pos::new(1, 2),
            Pos::new(1, 3),
            // 8 A
            // 9 B
            Pos::new(2, 0),
            Pos::new(2, 1),
            Pos::new(3, 0),
            Pos::new(3, 1),
            // C E
            // D F
            Pos::new(2, 2),
            Pos::new(2, 3),
            Pos::new(3, 2),
            Pos::new(3, 3),
        ]
    );
}

#[test]
fn test_block_row_major_blocks_col_major_cells_positions() {
    let rect = Rect::from_ltwh(0, 0, 4, 4);
    let positions: Vec<_> = Block::<2, 2, RowMajor, ColumnMajor>::iter_pos(rect);

    // 0 2 | 4 6
    // 1 3 | 5 7
    // --- | ---
    // 8 A | C E
    // 9 B | D F
    assert_eq!(
        positions,
        &[
            // 0 2
            // 1 3
            Pos::new(0, 0),
            Pos::new(0, 1),
            Pos::new(1, 0),
            Pos::new(1, 1),
            // 4 6
            // 5 7
            Pos::new(2, 0),
            Pos::new(2, 1),
            Pos::new(3, 0),
            Pos::new(3, 1),
            // 8 A
            // 9 B
            Pos::new(0, 2),
            Pos::new(0, 3),
            Pos::new(1, 2),
            Pos::new(1, 3),
            // C E
            // D F
            Pos::new(2, 2),
            Pos::new(2, 3),
            Pos::new(3, 2),
            Pos::new(3, 3),
        ]
    );
}

#[test]
fn test_block_col_major_blocks_row_major_cells_positions() {
    let rect = Rect::from_ltwh(0, 0, 4, 4);
    let positions: Vec<_> = Block::<2, 2, ColumnMajor, RowMajor>::iter_pos(rect);

    // 0 1 | 4 5
    // 2 3 | 6 7
    // --- | ---
    // 4 5 | 8 9
    // 6 7 | A B
    assert_eq!(
        positions,
        &[
            // 0 1
            // 2 3
            Pos::new(0, 0),
            Pos::new(1, 0),
            Pos::new(0, 1),
            Pos::new(1, 1),
            // 4 5
            // 6 7
            Pos::new(0, 2),
            Pos::new(1, 2),
            Pos::new(0, 3),
            Pos::new(1, 3),
            // 8 9
            // A B
            Pos::new(2, 0),
            Pos::new(3, 0),
            Pos::new(2, 1),
            Pos::new(3, 1),
            // C D
            // E F
            Pos::new(2, 2),
            Pos::new(3, 2),
            Pos::new(2, 3),
            Pos::new(3, 3),
        ]
    );
}

#[test]
fn test_block_row_major_to_1d() {
    // 0 1 | 4 5
    // 2 3 | 6 7
    // --- | ---
    // 8 9 | A B
    // C D | E F
    let expected: Vec<_> = (0..16).collect();
    let actual: Vec<_> = (0..4)
        .flat_map(|y| (0..4).map(move |x| Block::<4, 4>::pos_to_index(Pos::new(x, y), 4)))
        .collect();
    assert_eq!(actual, expected);
}

#[test]
fn test_block_col_major_to_1d() {
    // 0 2 | 8 A
    // 1 3 | 9 B
    // --- | ---
    // 4 6 | C E
    // 5 7 | D F
    let expected: Vec<_> = (0..16).collect();
    let actual: Vec<_> = (0..4)
        .flat_map(|x| {
            (0..4).map(move |y| Block::<4, 4, ColumnMajor>::pos_to_index(Pos::new(x, y), 4))
        })
        .collect();
    assert_eq!(actual, expected);
}

#[test]
fn test_pos_to_index() {
    assert_eq!(Block::<2, 2>::pos_to_index(Pos::new(0, 0), 4), 0);
    assert_eq!(Block::<2, 2>::pos_to_index(Pos::new(1, 0), 4), 1);
    assert_eq!(Block::<2, 2>::pos_to_index(Pos::new(0, 1), 4), 2);
    assert_eq!(Block::<2, 2>::pos_to_index(Pos::new(1, 1), 4), 3);
    assert_eq!(Block::<2, 2>::pos_to_index(Pos::new(2, 0), 4), 4);
    assert_eq!(Block::<2, 2>::pos_to_index(Pos::new(3, 0), 4), 5);
    assert_eq!(Block::<2, 2>::pos_to_index(Pos::new(2, 1), 4), 6);
    assert_eq!(Block::<2, 2>::pos_to_index(Pos::new(3, 1), 4), 7);
}

#[test]
fn test_block_row_major_to_2d() {
    // 0 1 | 4 5
    // 2 3 | 6 7
    // --- | ---
    // 8 9 | A B
    // C D | E F
    let expected: Vec<_> = (0..4)
        .flat_map(|y| (0..4).map(move |x| Pos::new(x, y)))
        .collect();
    let actual: Vec<_> = (0..16).map(|i| Block::<4, 4>::index_to_pos(i, 4)).collect();
    assert_eq!(actual, expected);
}

#[test]
fn len_aligned() {
    let size = Size::new(4, 2);
    assert_eq!(Block::<2, 2>::len_aligned(size), 2);
}

#[test]
fn slice_aligned_mut_in_bounds() {
    let slice = &mut [
        0, 1, 2, 3,
        4, 5, 6, 7,
    ];
    let size = Size::new(4, 2);
    assert_eq!(
        Block::<2, 2>::slice_aligned_mut(slice, size, 0),
        &mut [0, 1, 2, 3]
    );
}

#[test]
fn block_slice_aligned_in_bounds() {
    let slice = &[
        0, 1, 2, 3,
        4, 5, 6, 7,
    ];
    let size = Size::new(4, 2);
    assert_eq!(Block::<2, 2>::slice_aligned(slice, size, 0), &[0, 1, 2, 3]);
}

#[test]
fn block_slice_aligned_out_of_bounds() {
    let slice = &[
        0, 1, 2, 3,
        4, 5, 6, 7,
    ];
    let size = Size::new(4, 2);
    assert_eq!(Block::<2, 2>::slice_aligned(slice, size, 2), &[]);
}

#[test]
fn block_slice_rect_aligned_full() {
    let slice = &[
        0, 1, 2, 3,
        4, 5, 6, 7,
    ];
    let size = Size::new(4, 2);
    assert_eq!(
        Block::<2, 2>::slice_rect_aligned(slice, size, Rect::from_ltwh(0, 0, 4, 2)),
        Some(&[0, 1, 2, 3, 4, 5, 6, 7][..])
    );
}

#[test]
fn block_slice_rect_aligned_partial() {
    let slice = &[
        0, 1, 2, 3,
        4, 5, 6, 7,
    ];
    let size = Size::new(4, 2);
    assert_eq!(
        Block::<2, 2>::slice_rect_aligned(slice, size, Rect::from_ltwh(0, 0, 2, 2)),
        Some(&[0, 1, 2, 3][..])
    );
    assert_eq!(
        Block::<2, 2>::slice_rect_aligned(slice, size, Rect::from_ltwh(2, 0, 2, 2)),
        Some(&[4, 5, 6, 7][..])
    );
}

#[test]
fn block_slice_rect_aligned_out_of_bounds() {
    let slice = &[
        0, 1, 2, 3,
        4, 5, 6, 7,
    ];
    let size = Size::new(4, 2);
    assert_eq!(
        Block::<2, 2>::slice_rect_aligned(slice, size, Rect::from_ltwh(0, 0, 5, 2)),
        None
    );
}

#[test]
fn slice_rect_unaligned_partial() {
    let slice = &mut [
        0, 1, 2, 3,
        4, 5, 6, 7,
    ];
    let size = Size::new(4, 2);
    let rect = Rect::from_ltwh(0, 1, 1, 2);
    assert_eq!(Block::<2, 2>::slice_rect_aligned_mut(slice, size, rect), None);
}

#[test]
fn block_slice_rect_aligned_mut_full() {
    let slice = &mut [
        0, 1, 2, 3,
        4, 5, 6, 7,
    ];
    let size = Size::new(4, 2);
    assert_eq!(
        Block::<2, 2>::slice_rect_aligned_mut(slice, size, Rect::from_ltwh(0, 0, 4, 2)),
        Some(&mut [0, 1, 2, 3, 4, 5, 6, 7][..])
    );
}

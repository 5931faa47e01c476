use ixy::layout::{Linear, RowMajor, Traversal};
use ixy::{Pos, Rect, Size};

#[test]
fn row_major_positions() {
    let rect = Rect::from_ltwh(0, 0, 2, 2);
    let positions: Vec<_> = RowMajor::iter_pos(rect);
    assert_eq!(
        positions,
        &[
            Pos::new(0, 0),
            Pos::new(1, 0),
            Pos::new(0, 1),
            Pos::new(1, 1),
        ]
    );
}

#[test]
fn row_major_blocks_full() {
    let rect = Rect::from_ltwh(0, 0, 4, 4);
    let size = Size::new(2, 2);
    let blocks: Vec<_> = RowMajor::iter_rect(rect, size);
    assert_eq!(
        blocks,
        &[
            Rect::from_ltwh(0, 0, 2, 2),
            Rect::from_ltwh(2, 0, 2, 2),
            Rect::from_ltwh(0, 2, 2, 2),
            Rect::from_ltwh(2, 2, 2, 2),
        ]
    );
}

#[test]
fn row_major_blocks_partial() {
    let rect = Rect::from_ltwh(0, 0, 5, 3);
    let size = Size::new(2, 2);
    let blocks: Vec<_> = RowMajor::iter_rect(rect, size);
    assert_eq!(
        blocks,
        &[Rect::from_ltwh(0, 0, 2, 2), Rect::from_ltwh(2, 0, 2, 2),]
    );
}

#[test]
fn row_major_to_1d() {
    assert_eq!(RowMajor::pos_to_index(Pos::new(0, 0), 2), 0);
    assert_eq!(RowMajor::pos_to_index(Pos::new(1, 0), 2), 1);
    assert_eq!(RowMajor::pos_to_index(Pos::new(0, 1), 2), 2);
    assert_eq!(RowMajor::pos_to_index(Pos::new(1, 1), 2), 3);
}

#[test]
fn row_major_to_2d() {
    assert_eq!(RowMajor::index_to_pos(0, 2), Pos::new(0, 0));
    assert_eq!(RowMajor::index_to_pos(1, 2), Pos::new(1, 0));
    assert_eq!(RowMajor::index_to_pos(2, 2), Pos::new(0, 1));
    assert_eq!(RowMajor::index_to_pos(3, 2), Pos::new(1, 1));
}

#[test]
fn row_major_slice_aligned_mut() {
    let slice = &mut [
        0, 1, 2, 3,
        4, 5, 6, 7,
    ];
    let size = Size::new(4, 2);
    assert_eq!(
        RowMajor::slice_aligned_mut(slice, size, 0),
        &mut [0, 1, 2, 3]
    );
    assert_eq!(
        RowMajor::slice_aligned_mut(slice, size, 1),
        &mut [4, 5, 6, 7]
    );
}

#[test]
fn row_major_slice_aligned_in_bounds() {
    let slice = [
        0, 1, 2, 3, 
        4, 5, 6, 7,
    ];
    let size = Size::new(4, 2);
    assert_eq!(RowMajor::slice_aligned(&slice, size, 0), &[0, 1, 2, 3]);
    assert_eq!(RowMajor::slice_aligned(&slice, size, 1), &[4, 5, 6, 7]);
}

#[test]
fn row_major_slice_aligned_out_of_bounds() {
    let slice = [
        0, 1, 2, 3, 
        4, 5, 6, 7,
    ];
    let size = Size::new(4, 2);
    assert_eq!(RowMajor::slice_aligned(&slice, size, 2), &[]);
}

#[test]
fn row_major_slice_rect_aligned_full() {
    let slice = &[
        0, 1, 2, 3,
        4, 5, 6, 7,
    ];
    let size = Size::new(4, 2);
    let rect = Rect::from_ltwh(0, 0, 4, 2);
    assert_eq!(
        RowMajor::slice_rect_aligned(slice, size, rect),
        Some(&[0, 1, 2, 3, 4, 5, 6, 7][..])
    );
}

#[test]
fn row_major_slice_rect_aligned_partial() {
    let slice = &[
        0, 1, 2, 3,
        4, 5, 6, 7,
    ];
    let size = Size::new(4, 2);
    let rect = Rect::from_ltwh(0, 0, 4, 1);
    assert_eq!(
        RowMajor::slice_rect_aligned(slice, size, rect),
        Some(&[0, 1, 2, 3][..])
    );
}

#[test]
fn row_major_slice_rect_aligned_out_of_bounds() {
    let slice = &[
        0, 1, 2, 3,
        4, 5, 6, 7,
    ];
    let size = Size::new(4, 2);
    let rect = Rect::from_ltwh(0, 0, 4, 3);
    assert_eq!(RowMajor::slice_rect_aligned(slice, size, rect), None);
}

#[test]
fn row_major_slice_rect_unaligned() {
    let slice = &[
        0, 1, 2, 3,
        4, 5, 6, 7,
    ];
    let size = Size::new(4, 2);
    let rect = Rect::from_ltwh(0, 0, 3, 2);
    assert_eq!(RowMajor::slice_rect_aligned(slice, size, rect), None);
}

#[test]
fn row_major_slice_rect_aligned_mut_full() {
    let slice = &mut [
        0, 1, 2, 3,
        4, 5, 6, 7,
    ];
    let size = Size::new(4, 2);
    let rect = Rect::from_ltwh(0, 0, 4, 2);
    assert_eq!(
        RowMajor::slice_rect_aligned_mut(slice, size, rect),
        Some(&mut [0, 1, 2, 3, 4, 5, 6, 7][..])
    );
}

use ixy::index::{AnyLayout, Block, ColMajor, Layout, RowMajor};
use ixy::{Pos, Rect};

#[test]
fn to_row_major() {
    let pos = Pos::new(2, 3);
    let width = 5;

    let index = RowMajor::to_1d(pos, width);
    assert_eq!(index, 17); // 3 * 5 + 2
}

#[test]
fn to_col_major() {
    let pos = Pos::new(2, 3);
    let width = 5;

    let index = ColMajor::to_1d(pos, width);
    assert_eq!(index, 13); // 2 * 5 + 3
}

#[test]
fn to_block() {
    assert_eq!(Block::<2, 2>::to_1d(Pos::new(0, 0), 4), 0);
    assert_eq!(Block::<2, 2>::to_1d(Pos::new(1, 0), 4), 1);
    assert_eq!(Block::<2, 2>::to_1d(Pos::new(0, 1), 4), 2);
    assert_eq!(Block::<2, 2>::to_1d(Pos::new(1, 1), 4), 3);
    assert_eq!(Block::<2, 2>::to_1d(Pos::new(2, 0), 4), 4);
    assert_eq!(Block::<2, 2>::to_1d(Pos::new(3, 0), 4), 5);
    assert_eq!(Block::<2, 2>::to_1d(Pos::new(2, 1), 4), 6);
    assert_eq!(Block::<2, 2>::to_1d(Pos::new(3, 1), 4), 7);
}

#[test]
fn from_row_major() {
    let index = 17;
    let width = 5;

    let pos: Pos<i32> = RowMajor::to_2d(index, width);
    assert_eq!(pos.x, 2); // 17 % 5
    assert_eq!(pos.y, 3); // 17 / 5
}

#[test]
fn from_col_major() {
    let index = 13;
    let width = 5;

    let pos: Pos<i32> = ColMajor::to_2d(index, width);
    assert_eq!(pos.x, 2); // 13 / 5
    assert_eq!(pos.y, 3); // 13 % 5
}

#[test]
fn from_block() {
    assert_eq!(Block::<2, 2>::to_2d(0, 4), Pos::new(0, 0));
    assert_eq!(Block::<2, 2>::to_2d(1, 4), Pos::new(1, 0));
    assert_eq!(Block::<2, 2>::to_2d(2, 4), Pos::new(0, 1));
    assert_eq!(Block::<2, 2>::to_2d(3, 4), Pos::new(1, 1));
    assert_eq!(Block::<2, 2>::to_2d(4, 4), Pos::new(2, 0));
    assert_eq!(Block::<2, 2>::to_2d(5, 4), Pos::new(3, 0));
    assert_eq!(Block::<2, 2>::to_2d(6, 4), Pos::new(2, 1));
    assert_eq!(Block::<2, 2>::to_2d(7, 4), Pos::new(3, 1));
}

#[test]
fn iter_row_major() {
    let bounds = Rect::from_ltrb(0, 0, 3, 2).unwrap();
    let positions: Vec<_> = RowMajor::positions(bounds);
    assert_eq!(
        positions,
        &[
            Pos::new(0, 0),
            Pos::new(1, 0),
            Pos::new(2, 0),
            Pos::new(0, 1),
            Pos::new(1, 1),
            Pos::new(2, 1)
        ]
    );
}

#[test]
fn iter_col_major() {
    let bounds = Rect::from_ltrb(0, 0, 3, 2).unwrap();
    let positions: Vec<_> = ColMajor::positions(bounds);
    assert_eq!(
        positions,
        &[
            Pos::new(0, 0),
            Pos::new(0, 1),
            Pos::new(1, 0),
            Pos::new(1, 1),
            Pos::new(2, 0),
            Pos::new(2, 1)
        ]
    );
}

#[test]
fn iter_block() {
    let bounds = Rect::from_ltwh(0, 0, 4, 4);
    let positions: Vec<_> = Block::<2, 2>::positions(bounds);
    assert_eq!(
        positions,
        &[
            Pos::new(0, 0),
            Pos::new(1, 0),
            Pos::new(0, 1),
            Pos::new(1, 1),
            Pos::new(2, 0),
            Pos::new(3, 0),
            Pos::new(2, 1),
            Pos::new(3, 1),
            Pos::new(0, 2),
            Pos::new(1, 2),
            Pos::new(0, 3),
            Pos::new(1, 3),
            Pos::new(2, 2),
            Pos::new(3, 2),
            Pos::new(2, 3),
            Pos::new(3, 3),
        ]
    );
}

#[test]
fn any_layout() {
    assert_eq!(RowMajor::as_any(), AnyLayout::RowMajor);
    assert_eq!(ColMajor::as_any(), AnyLayout::ColMajor);
    assert_eq!(
        Block::<2, 2>::as_any(),
        AnyLayout::Block {
            width: 2,
            height: 2
        }
    );
}

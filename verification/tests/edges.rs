use std::cmp::Ordering;

use ixy::integer::Int;
use ixy::internal::{abs_of, gcd, isqrt};
use ixy::layout::col_major::{IterBlockColMajor, IterPosColMajor};
use ixy::layout::row_major::{IterBlockRowMajor, IterPosRowMajor};
use ixy::layout::{Block, ColumnMajor, Linear, RowMajor, Traversal};
use ixy::ops::distance::{euclidean_approx, euclidean_squared};
use ixy::ops::line::{vector, VectorIter};
use ixy::pos::convert_int;
use ixy::{HasSize, Pos, Rect, RectError, Size, TryFromPos, TryFromPosError, TryIntoPos};

#[test]
fn rectangles_without_cells_have_no_positions() {
    let no_columns: Rect<i32> = Rect::from_ltwh(3, 1, 0, 4);
    let no_rows: Rect<i32> = Rect::from_ltwh(3, 1, 4, 0);
    assert!(RowMajor::iter_pos(no_columns).is_empty());
    assert!(RowMajor::iter_pos(no_rows).is_empty());
    assert!(ColumnMajor::iter_pos(no_columns).is_empty());
    assert!(ColumnMajor::iter_pos(no_rows).is_empty());
    assert!(Block::<2, 2>::iter_pos(no_columns).is_empty());
    assert!(no_columns.into_iter_row_major().is_empty());
    assert!(no_rows.into_iter_col_major().is_empty());
}

#[test]
fn blocks_are_the_whole_tiles_of_every_row() {
    let rect = Rect::from_ltwh(0, 0, 5, 4);
    let size = Size::new(2, 2);
    assert_eq!(
        RowMajor::iter_rect(rect, size),
        &[
            Rect::from_ltwh(0, 0, 2, 2),
            Rect::from_ltwh(2, 0, 2, 2),
            Rect::from_ltwh(0, 2, 2, 2),
            Rect::from_ltwh(2, 2, 2, 2),
        ]
    );
    assert_eq!(
        ColumnMajor::iter_rect(rect, size),
        &[
            Rect::from_ltwh(0, 0, 2, 2),
            Rect::from_ltwh(0, 2, 2, 2),
            Rect::from_ltwh(2, 0, 2, 2),
            Rect::from_ltwh(2, 2, 2, 2),
        ]
    );
    assert!(RowMajor::iter_rect(rect, Size::new(6, 1)).is_empty());
    assert!(ColumnMajor::iter_rect(rect, Size::new(1, 5)).is_empty());
    assert_eq!(RowMajor::iter_rect(rect, Size::new(5, 4)), &[rect]);
}

#[test]
fn blocks_at_the_limits_of_the_integer_type() {
    let rect: Rect<u8> = Rect::from_ltrb(200, 250, 255, 255).unwrap();
    let blocks = RowMajor::iter_rect(rect, Size::new(20, 5));
    assert_eq!(
        blocks,
        &[
            Rect::from_ltrb(200, 250, 220, 255).unwrap(),
            Rect::from_ltrb(220, 250, 240, 255).unwrap(),
        ]
    );
    assert!(RowMajor::iter_rect(rect, Size::new(300, 1)).is_empty());
    let last = RowMajor::iter_pos(Rect::<u8>::from_ltrb(254, 254, 255, 255).unwrap());
    assert_eq!(last, &[Pos::new(254, 254)]);
    let negative = RowMajor::iter_pos(Rect::<i8>::from_ltrb(-128, -128, -126, -127).unwrap());
    assert_eq!(negative, &[Pos::new(-128, -128), Pos::new(-127, -128)]);
}

#[test]
fn nested_blocks() {
    let rect: Rect<i32> = Rect::from_ltwh(0, 0, 4, 4);
    let blocks = Block::<4, 4, RowMajor, Block<2, 2, ColumnMajor>>::iter_rect(rect, Size::new(1, 1));
    assert_eq!(blocks.len(), 16);
    assert_eq!(blocks[0], Rect::from_ltwh(0, 0, 1, 1));
    assert_eq!(blocks[1], Rect::from_ltwh(0, 1, 1, 1));
    assert_eq!(blocks[2], Rect::from_ltwh(1, 0, 1, 1));
    assert_eq!(blocks[4], Rect::from_ltwh(0, 2, 1, 1));
    assert_eq!(blocks[8], Rect::from_ltwh(2, 0, 1, 1));
}

#[test]
fn position_iterators_count_what_is_left() {
    let rect: Rect<i32> = Rect::from_ltwh(1, 1, 3, 2);
    let mut rows = IterPosRowMajor::new(rect);
    let mut columns = IterPosColMajor::new(rect);
    for left in (1..=6).rev() {
        assert_eq!(rows.len(), left);
        assert_eq!(columns.len(), left);
        assert!(rows.next().is_some());
        assert!(columns.next().is_some());
    }
    assert_eq!(rows.len(), 0);
    assert_eq!(rows.next(), None);
    assert_eq!(rows.next(), None);
    assert_eq!(columns.len(), 0);
    assert_eq!(columns.next(), None);
}

#[test]
fn block_iterators_count_what_is_left() {
    let rect: Rect<i32> = Rect::from_ltwh(0, 0, 7, 5);
    let mut rows = IterBlockRowMajor::new(rect, Size::new(2, 2));
    let mut columns = IterBlockColMajor::new(rect, Size::new(2, 2));
    for left in (1..=6).rev() {
        assert_eq!(rows.len(), left);
        assert_eq!(columns.len(), left);
        assert!(rows.next().is_some());
        assert!(columns.next().is_some());
    }
    assert_eq!(rows.len(), 0);
    assert_eq!(rows.next(), None);
    assert_eq!(rows.next(), None);
    assert_eq!(columns.next(), None);
    let mut order = IterBlockColMajor::new(rect, Size::new(3, 2));
    assert_eq!(order.next(), Some(Rect::from_ltwh(0, 0, 3, 2)));
    assert_eq!(order.next(), Some(Rect::from_ltwh(0, 2, 3, 2)));
    assert_eq!(order.next(), Some(Rect::from_ltwh(3, 0, 3, 2)));
    assert_eq!(order.len(), 1);
}

#[test]
fn block_layout_parts() {
    assert_eq!(Block::<3, 2>::block_size(), Size::new(3, 2));
    let layout = Block::<3, 2>::new().with_grid::<ColumnMajor>().with_cell::<RowMajor>();
    let _: Block<3, 2, ColumnMajor, RowMajor> = layout;
    assert_eq!(Block::<3, 2, ColumnMajor>::len_aligned(Size::new(6, 4)), 6);
    assert_eq!(Block::<3, 2, RowMajor>::len_aligned(Size::new(6, 4)), 4);
    assert_eq!(RowMajor::axis_to_range(&[0; 8], Size::new(4, 2), 1), 4..8);
    assert_eq!(ColumnMajor::axis_to_range(&[0; 8], Size::new(4, 2), 3), 6..8);
    // the index of a block layout: tile 5 of 3 x 2 tiles in rows of 3, cell (1, 1)
    assert_eq!(Block::<3, 2>::pos_to_index(Pos::new(7, 3), 9), 5 * 6 + 4);
    assert_eq!(Block::<3, 2>::index_to_pos(5 * 6 + 4, 9), Pos::new(7, 3));
    assert_eq!(Block::<2, 2>::rect_to_range(Size::new(4, 4), Rect::from_ltwh(2, 2, 2, 2)), Some(12..16));
    assert_eq!(Block::<2, 2>::rect_to_range(Size::new(4, 2), Rect::from_ltwh(2, 2, 2, 2)), None);
}

#[test]
fn integers_convert_through_wide_types() {
    assert_eq!(200u8.checked_to_i128(), Some(200));
    assert_eq!(u128::MAX.checked_to_i128(), None);
    assert_eq!((-1i64).checked_to_u128(), None);
    assert_eq!(i8::checked_from_i128(-129), None);
    assert_eq!(i8::checked_from_i128(-128), Some(-128));
    assert_eq!(u16::checked_from_u128(65536), None);
    assert_eq!(u16::checked_from_u128(65535), Some(65535));
    assert_eq!(u128::checked_from_i128(-1), None);
    assert_eq!(convert_int::<i32, u8>(255), Some(255));
    assert_eq!(convert_int::<i32, u8>(256), None);
    assert_eq!(convert_int::<i32, u8>(-1), None);
    assert_eq!(convert_int::<u128, u128>(u128::MAX), Some(u128::MAX));
    assert_eq!(convert_int::<i128, i64>(i128::MIN), None);
    assert_eq!(convert_int::<u64, i64>(u64::MAX), None);
    assert_eq!(u64::MAX.saturating_to_usize(), usize::MAX);
    assert_eq!((-5i32).saturating_to_usize(), 0);
    assert_eq!(i16::saturating_from_usize(40000), i16::MAX);
    assert_eq!(u32::checked_from_usize(7), Some(7));
    assert_eq!(<i32 as Int>::ZERO, 0);
    assert_eq!(<i32 as Int>::ONE, 1);
    assert_eq!(<u8 as Int>::MIN, 0);
    assert_eq!(<i64 as Int>::MAX, i64::MAX);
}

#[test]
fn positions_convert_or_say_why_not() {
    let negative: Pos<i32> = Pos::new(-1, 5);
    assert_eq!(Pos::<usize>::try_from_pos(negative), Err(TryFromPosError::OutOfRange));
    let wide: Pos<u64> = Pos::new(7, u64::MAX);
    let narrow: Result<Pos<i64>, _> = wide.try_into_pos();
    assert_eq!(narrow, Err(TryFromPosError::OutOfRange));
    let fine: Result<Pos<u8>, _> = Pos::new(255i64, 0).try_into_pos();
    assert_eq!(fine, Ok(Pos::new(255, 0)));
    assert_eq!(Pos::new(3u8, 4).into_size(), Size::new(3, 4));
    assert_eq!(Pos::new(3, 4) + Pos::new(-5, 1), Pos::new(-2, 5));
    assert_eq!(Pos::new(3, 4) - Pos::new(-5, 1), Pos::new(8, 3));
    let mut pos = Pos::new(1, 1);
    pos += Pos::new(2, 3);
    pos -= Pos::new(1, 1);
    assert_eq!(pos, Pos::new(2, 3));
    assert_eq!(Pos::<i32>::neg_unit_x(), Pos::new(-1, 0));
    assert_eq!(Pos::<i32>::neg_unit_y(), Pos::new(0, -1));
}

#[test]
fn rectangles_at_their_limits() {
    // an empty rectangle can be made of edges, not of corners
    assert!(Rect::from_ltrb(1, 2, 1, 2).is_ok());
    assert_eq!(
        Rect::from_tlbr(Pos::new(1, 2), Pos::new(1, 4)),
        Err(RectError::InvalidDimensions)
    );
    assert_eq!(Rect::from_ltrb(1, 5, 3, 4), Err(RectError::InvalidDimensions));
    let rect = Rect::from_ltrb(1, 2, 5, 6).unwrap();
    // edges that only touch share no position
    assert_eq!(rect.intersect(Rect::from_ltrb(5, 2, 8, 6).unwrap()), Rect::empty());
    assert!(rect.contains(1, 2));
    assert!(!rect.contains(5, 2));
    assert!(!rect.contains(1, 6));
    assert!(rect.contains_rect(rect));
    assert_eq!(Rect::<i32>::default(), Rect::empty());
    assert_eq!(Rect::new(Pos::new(-3, 2), Size::new(4, 1)), Rect::from_ltrb(-3, 2, 1, 3).unwrap());
    // division rounds towards zero
    assert_eq!(Rect::from_ltrb(-7, -5, 5, 7).unwrap() / 2, Rect::from_ltrb(-3, -2, 2, 3).unwrap());
    assert_eq!(Size::new(4, 3).to_rect(), Rect::from_ltwh(0, 0, 4, 3));
    assert_eq!(rect.to_rect(), Rect::from_ltwh(0, 0, 4, 4));
    assert_eq!(Rect::<u8>::from_ltrb(0, 0, 255, 255).unwrap().area(), 65025);
}

#[test]
fn greatest_common_divisors_and_roots() {
    assert_eq!(gcd(0, 0), 0);
    assert_eq!(gcd(12u8, 18), 6);
    assert_eq!(gcd(i32::MAX, -i32::MAX), i32::MAX);
    assert_eq!(gcd(17, 5), 1);
    assert_eq!(abs_of(-7), 7);
    assert_eq!(abs_of(7u16), 7);
    assert_eq!(isqrt(-4), 0);
    assert_eq!(isqrt(2), 1);
    assert_eq!(isqrt(3), 1);
    assert_eq!(isqrt(8), 2);
    assert_eq!(isqrt(99), 9);
    assert_eq!(isqrt(i32::MAX - 1), 46340);
    assert_eq!(isqrt(254u8), 15);
    assert_eq!(isqrt(1u64 << 62), 1 << 31);
}

#[test]
fn distances_and_lines() {
    assert_eq!(euclidean_squared(Pos::new(-1, -1), Pos::new(2, 3)), 25);
    assert_eq!(euclidean_approx(Pos::new(0, 0), Pos::new(2, 2)), 2);
    assert_eq!(euclidean_approx(Pos::new(5u8, 5), Pos::new(5, 5)), 0);
    assert_eq!(
        vector(Pos::new(2, 2), Pos::new(-4, 5)),
        &[Pos::new(2, 2), Pos::new(0, 3), Pos::new(-2, 4), Pos::new(-4, 5)]
    );
    assert_eq!(vector(Pos::new(1u8, 1), Pos::new(1, 3)).len(), 3);
    assert_eq!(vector(Pos::new(0, 0), Pos::new(7, 3)), &[Pos::new(0, 0), Pos::new(7, 3)]);
    let mut walk = VectorIter::new(Pos::new(0, 0), Pos::new(0, -2));
    assert_eq!(walk.next(), Some(Pos::new(0, 0)));
    assert_eq!(walk.next(), Some(Pos::new(0, -1)));
    assert_eq!(walk.next(), Some(Pos::new(0, -2)));
    assert_eq!(walk.next(), None);
    assert_eq!(walk.next(), None);
}

#[test]
fn row_major_grid_of_three_by_two() {
    // 1 2 3
    // 4 5 6
    let data = [1, 2, 3, 4, 5, 6];
    let index = RowMajor::pos_to_index(Pos::new(2, 1), 3);
    assert_eq!(index, 5);
    assert_eq!(data[index], 6);
    assert_eq!(<ixy::index::RowMajor as ixy::index::Layout>::to_1d(Pos::new(2, 1), 3), 5);
    assert_eq!(
        RowMajor::iter_pos(Rect::from_ltrb(0, 0, 3, 2).unwrap()),
        &[
            Pos::new(0, 0),
            Pos::new(1, 0),
            Pos::new(2, 0),
            Pos::new(0, 1),
            Pos::new(1, 1),
            Pos::new(2, 1),
        ]
    );
}

#[test]
fn positions_are_ordered_by_x_first() {
    assert_eq!(Pos::new(1, 9).partial_cmp(&Pos::new(2, 0)), Some(Ordering::Less));
    assert_eq!(Pos::new(2, 0).partial_cmp(&Pos::new(1, 9)), Some(Ordering::Greater));
    assert_eq!(Pos::new(1, 2).partial_cmp(&Pos::new(1, 3)), Some(Ordering::Less));
    assert_eq!(Pos::new(1, 3).partial_cmp(&Pos::new(1, 3)), Some(Ordering::Equal));
    assert_eq!(Pos::new(1, 3).cmp(&Pos::new(1, 2)), Ordering::Greater);
    let mut positions = vec![Pos::new(1, 1), Pos::new(0, 5), Pos::new(1, 0)];
    positions.sort();
    assert_eq!(positions, &[Pos::new(0, 5), Pos::new(1, 0), Pos::new(1, 1)]);
}

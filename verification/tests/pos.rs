use ixy::{Pos, TryFromPos, TryFromPosError, TryIntoPos};

#[test]
fn pos_macro() {
    let p: Pos<i32> = Pos::new(3, 4);
    assert_eq!(p.x, 3);
    assert_eq!(p.y, 4);
}

#[test]
fn ord() {
    assert!(Pos::new(1, 2) < Pos::new(2, 1));
    assert!(Pos::new(1, 2) < Pos::new(1, 3));
    assert!(Pos::new(1, 2) < Pos::new(2, 2));
    assert!(Pos::new(2, 2) > Pos::new(1, 2));
    assert!(Pos::new(2, 1) > Pos::new(1, 2));
}

#[test]
fn generic_t_defaults_to_i32() {
    let p: Pos = Pos::default();
    assert_eq!(p, Pos::<i32>::origin());
}

#[test]
fn origin_is_0_0() {
    assert_eq!(Pos::origin(), Pos::new(0, 0));
}

#[test]
fn min_is_min_min() {
    assert_eq!(Pos::min_pos(), Pos::new(i32::MIN, i32::MIN));
}

#[test]
fn max_is_max_max() {
    assert_eq!(Pos::max_pos(), Pos::new(i32::MAX, i32::MAX));
}

#[test]
fn x_is_1_0() {
    assert_eq!(Pos::unit_x(), Pos::new(1, 0));
}

#[test]
fn y_is_0_1() {
    assert_eq!(Pos::unit_y(), Pos::new(0, 1));
}

#[test]
fn new_x_y() {
    let p = Pos::new(3, 4);
    assert_eq!(p.x, 3);
    assert_eq!(p.y, 4);
}

#[test]
fn default_is_origin() {
    let p: Pos<i32> = Pos::default();
    assert_eq!(p, Pos::origin());
}

#[test]
fn negate() {
    let p = Pos::new(3, 4);
    assert_eq!(-p, Pos::new(-3, -4));
}

#[test]
fn mul_by_scalar() {
    let p = Pos::new(3, 4) * 2;
    assert_eq!(p, Pos::new(6, 8));
}

#[test]
fn mul_assign_by_scalar() {
    let mut p = Pos::new(3, 4);
    p *= 2;
    assert_eq!(p, Pos::new(6, 8));
}

#[test]
fn from_tuple() {
    let pos = Pos::from((3, 4));
    assert_eq!(pos.x, 3);
    assert_eq!(pos.y, 4);
}

#[test]
fn from_array() {
    let pos = Pos::from([3, 4]);
    assert_eq!(pos.x, 3);
    assert_eq!(pos.y, 4);
}

#[test]
fn into_tuple() {
    let pos = Pos::new(3, 4);
    let tuple: (i32, i32) = pos.into();
    assert_eq!(tuple, (3, 4));
}

#[test]
fn into_array() {
    let pos = Pos::new(3, 4);
    let array: [i32; 2] = pos.into();
    assert_eq!(array, [3, 4]);
}

#[test]
fn try_from_pos_ok() {
    let source: Pos<u8> = Pos::new(3, 4);
    let convert = Pos::<i32>::try_from_pos(source).unwrap();
    assert_eq!(convert.x, 3);
    assert_eq!(convert.y, 4);
}

#[test]
fn try_from_pos_out_of_range() {
    let source: Pos<u16> = Pos::new(7000, 8000);
    let result = Pos::<u8>::try_from_pos(source);
    assert!(result.is_err());
}

#[test]
fn try_into_pos_ok() {
    let source: Pos<u8> = Pos::new(3, 4);
    let convert: Pos<i32> = source.try_into_pos().unwrap();
    assert_eq!(convert.x, 3);
    assert_eq!(convert.y, 4);
}

#[test]
fn try_into_pos_out_of_range() {
    let source: Pos<u16> = Pos::new(7000, 8000);
    let result: Result<Pos<u8>, TryFromPosError> = source.try_into_pos();
    assert!(result.is_err());
}

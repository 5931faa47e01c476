use ixy::integer::Int;

#[test]
fn u8_to_usize() {
    let value = 255u8;
    assert_eq!(value.to_usize(), 255);
    assert_eq!(value.checked_to_usize(), Some(255));
    assert_eq!(value.saturating_to_usize(), 255);
}

#[test]
fn u8_from_usize_ok() {
    let value = 255usize;
    assert_eq!(u8::from_usize(value), 255);
    assert_eq!(u8::checked_from_usize(value), Some(255));
    assert_eq!(u8::saturating_from_usize(value), 255);
}

#[test]
fn u8_from_usize_out_of_bounds() {
    let value = 256usize;
    assert_eq!(u8::checked_from_usize(value), None);
    assert_eq!(u8::saturating_from_usize(value), 255);
}

#[test]
fn i8_to_usize_ok() {
    let value = 127i8;
    assert_eq!(value.checked_to_usize(), Some(127));
    assert_eq!(value.saturating_to_usize(), 127);
    assert_eq!(value.to_usize(), 127);
}

#[test]
fn i8_to_usize_negative_err() {
    let value = -1i8;
    assert_eq!(value.checked_to_usize(), None);
    assert_eq!(value.saturating_to_usize(), 0);
}

#[test]
fn i8_from_usize_ok() {
    let value = 127usize;
    assert_eq!(i8::from_usize(value), 127);
    assert_eq!(i8::checked_from_usize(value), Some(127));
    assert_eq!(i8::saturating_from_usize(value), 127);
}

#[test]
fn i8_from_usize_out_of_bounds() {
    let value = 128usize;
    assert_eq!(i8::checked_from_usize(value), None);
    assert_eq!(i8::saturating_from_usize(value), 127);
}

#[test]
fn i128_to_usize_saturating_out_of_bounds() {
    let value = i128::MAX;
    assert_eq!(value.checked_to_usize(), None);
    assert_eq!(value.saturating_to_usize(), usize::MAX);
}

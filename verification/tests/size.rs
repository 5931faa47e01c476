use ixy::{HasSize, Size};

#[test]
fn size_size() {
    let size = Size {
        width: 10,
        height: 20,
    };
    assert_eq!(size.width(), 10);
    assert_eq!(size.height(), 20);
}

#[test]
fn to_rect() {
    let size = Size::new(10, 20);
    let rect = size.to_rect();
    assert_eq!(rect.left(), 0);
    assert_eq!(rect.top(), 0);
    assert_eq!(rect.right(), 10);
    assert_eq!(rect.bottom(), 20);
}

#[test]
fn add_size_size() {
    let size1 = Size::new(10, 20);
    let size2 = Size::new(5, 15);
    let result = size1 + size2;
    assert_eq!(result, Size::new(15, 35));
}

#[test]
fn add_assign_size() {
    let mut size = Size::new(10, 20);
    size += Size::new(5, 15);
    assert_eq!(size, Size::new(15, 35));
}

#[test]
fn sub_size_size() {
    let size1 = Size::new(10, 20);
    let size2 = Size::new(5, 15);
    let result = size1 - size2;
    assert_eq!(result, Size::new(5, 5));
}

#[test]
fn sub_assign_size() {
    let mut size = Size::new(10, 20);
    size -= Size::new(5, 15);
    assert_eq!(size, Size::new(5, 5));
}

#[test]
fn mul_size_size() {
    let size1 = Size::new(10, 20);
    let size2 = Size::new(2, 3);
    let result = size1 * size2;
    assert_eq!(result, Size::new(20, 60));
}

#[test]
fn mul_assign_size() {
    let mut size = Size::new(10, 20);
    size *= Size::new(2, 3);
    assert_eq!(size, Size::new(20, 60));
}

#[test]
fn mul_size_scalar() {
    let size = Size::new(10, 20);
    let scalar = 2;
    let result = size * scalar;
    assert_eq!(result, Size::new(20, 40));
}

#[test]
fn mul_assign_size_scalar() {
    let mut size = Size::new(10, 20);
    size *= 2;
    assert_eq!(size, Size::new(20, 40));
}

#[test]
fn div_size_size() {
    let size1 = Size::new(10, 20);
    let size2 = Size::new(2, 4);
    let result = size1 / size2;
    assert_eq!(result, Size::new(5, 5));
}

#[test]
fn div_assign_size() {
    let mut size = Size::new(10, 20);
    size /= Size::new(2, 4);
    assert_eq!(size, Size::new(5, 5));
}

#[test]
fn div_size_scalar() {
    let size = Size::new(10, 20);
    let scalar = 2;
    let result = size / scalar;
    assert_eq!(result, Size::new(5, 10));
}

#[test]
fn div_assign_size_scalar() {
    let mut size = Size::new(10, 20);
    size /= 2;
    assert_eq!(size, Size::new(5, 10));
}

#[test]
fn size_area() {
    let size = Size::new(10, 20);
    assert_eq!(size.area(), 200);
}

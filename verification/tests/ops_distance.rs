use ixy::ops::distance::{euclidean_approx, euclidean_squared};
use ixy::Pos;

#[test]
fn euclidean_approx_test() {
    let a = Pos::new(3, 4);
    let b = Pos::new(6, 8);
    assert_eq!(euclidean_approx(a, b), 5);
}

#[test]
fn euclidean_squared_test() {
    let a = Pos::new(3, 4);
    let b = Pos::new(6, 8);
    assert_eq!(euclidean_squared(a, b), 25);
}

use ixy::ops::line::vector;
use ixy::Pos;

#[test]
fn vector_iter_blank() {
    let start = Pos::new(0, 0);
    let end = Pos::new(0, 0);
    let mut iter = vector(start, end).into_iter();
    assert_eq!(iter.next(), None);
}

#[test]
fn vector_iter_horizontal() {
    let start = Pos::new(0, 0);
    let end = Pos::new(5, 0);
    let mut iter = vector(start, end).into_iter();
    assert_eq!(iter.next(), Some(Pos::new(0, 0)));
    assert_eq!(iter.next(), Some(Pos::new(1, 0)));
    assert_eq!(iter.next(), Some(Pos::new(2, 0)));
    assert_eq!(iter.next(), Some(Pos::new(3, 0)));
    assert_eq!(iter.next(), Some(Pos::new(4, 0)));
    assert_eq!(iter.next(), Some(Pos::new(5, 0)));
    assert_eq!(iter.next(), None);
}

#[test]
fn vector_iter_vertical() {
    let start = Pos::new(0, 0);
    let end = Pos::new(0, 5);
    let mut iter = vector(start, end).into_iter();
    assert_eq!(iter.next(), Some(Pos::new(0, 0)));
    assert_eq!(iter.next(), Some(Pos::new(0, 1)));
    assert_eq!(iter.next(), Some(Pos::new(0, 2)));
    assert_eq!(iter.next(), Some(Pos::new(0, 3)));
    assert_eq!(iter.next(), Some(Pos::new(0, 4)));
    assert_eq!(iter.next(), Some(Pos::new(0, 5)));
    assert_eq!(iter.next(), None);
}

#[test]
fn vector_iter_diagonal() {
    let start = Pos::new(0, 0);
    let end = Pos::new(3, 3);
    let mut iter = vector(start, end).into_iter();
    assert_eq!(iter.next(), Some(Pos::new(0, 0)));
    assert_eq!(iter.next(), Some(Pos::new(1, 1)));
    assert_eq!(iter.next(), Some(Pos::new(2, 2)));
    assert_eq!(iter.next(), Some(Pos::new(3, 3)));
    assert_eq!(iter.next(), None);
}

#[test]
fn vector_iter_negative() {
    let start = Pos::new(0, 0);
    let end = Pos::new(-3, -3);
    let mut iter = vector(start, end).into_iter();
    assert_eq!(iter.next(), Some(Pos::new(0, 0)));
    assert_eq!(iter.next(), Some(Pos::new(-1, -1)));
    assert_eq!(iter.next(), Some(Pos::new(-2, -2)));
    assert_eq!(iter.next(), Some(Pos::new(-3, -3)));
    assert_eq!(iter.next(), None);
}

#[test]
fn vector_iter_jagged() {
    let start = Pos::new(0, 0);
    let end = Pos::new(6, 4);
    let mut iter = vector(start, end).into_iter();
    assert_eq!(iter.next(), Some(Pos::new(0, 0)));
    assert_eq!(iter.next(), Some(Pos::new(3, 2)));
    assert_eq!(iter.next(), Some(Pos::new(6, 4)));
    assert_eq!(iter.next(), None);
}

use ixy::grid::iter::{
    iter_from_pos, iter_from_pos_unchecked, iter_with_pos, iter_with_pos_unchecked,
};
use ixy::grid::GridBuf;
use ixy::Pos;

#[test]
fn test_iter_from_pos_basic() {
    let grid = GridBuf::from_row_major(3, 2, vec![1, 2, 3, 4, 5, 6]).unwrap();
    let positions = vec![Pos::new(0, 0), Pos::new(1, 1), Pos::new(2, 1)];
    let elements: Vec<_> = iter_from_pos(&grid, &positions);
    assert_eq!(elements, &[&1, &5, &6]);
}

#[test]
fn test_iter_from_pos_out_of_bounds() {
    let grid = GridBuf::from_row_major(3, 2, vec![1, 2, 3, 4, 5, 6]).unwrap();
    let positions = vec![
        Pos::new(0, 0),
        Pos::new(3, 0), // out of bounds
        Pos::new(1, 1),
        Pos::new(2, 2), // out of bounds
    ];
    let elements: Vec<_> = iter_from_pos(&grid, &positions);
    assert_eq!(elements, &[&1, &5]);
}

#[test]
fn test_iter_with_pos_basic() {
    let grid = GridBuf::from_row_major(3, 2, vec![1, 2, 3, 4, 5, 6]).unwrap();
    let positions = vec![Pos::new(0, 0), Pos::new(1, 1), Pos::new(2, 1)];
    let elements: Vec<_> = iter_with_pos(&grid, &positions);
    assert_eq!(
        elements,
        &[
            (Pos::new(0, 0), &1),
            (Pos::new(1, 1), &5),
            (Pos::new(2, 1), &6)
        ]
    );
}

#[test]
fn test_iter_with_pos_out_of_bounds() {
    let grid = GridBuf::from_row_major(3, 2, vec![1, 2, 3, 4, 5, 6]).unwrap();
    let positions = vec![
        Pos::new(0, 0),
        Pos::new(3, 0), // out of bounds
        Pos::new(1, 1),
        Pos::new(2, 2), // out of bounds
    ];
    let elements: Vec<_> = iter_with_pos(&grid, &positions);
    assert_eq!(elements, &[(Pos::new(0, 0), &1), (Pos::new(1, 1), &5)]);
}

#[test]
fn test_iter_from_pos_unchecked_basic() {
    let grid = GridBuf::from_row_major(3, 2, vec![1, 2, 3, 4, 5, 6]).unwrap();
    let positions = vec![Pos::new(0, 0), Pos::new(1, 1), Pos::new(2, 1)];
    let elements: Vec<_> = iter_from_pos_unchecked(&grid, &positions);
    assert_eq!(elements, &[&1, &5, &6]);
}

#[test]
fn test_iter_with_pos_unchecked_basic() {
    let grid = GridBuf::from_row_major(3, 2, vec![1, 2, 3, 4, 5, 6]).unwrap();
    let positions = vec![Pos::new(0, 0), Pos::new(1, 1), Pos::new(2, 1)];
    let elements: Vec<_> = iter_with_pos_unchecked(&grid, &positions);
    assert_eq!(
        elements,
        &[
            (Pos::new(0, 0), &1),
            (Pos::new(1, 1), &5),
            (Pos::new(2, 1), &6)
        ]
    );
}

#[test]
fn test_iter_from_pos_empty_positions() {
    let grid = GridBuf::from_row_major(2, 2, vec![1, 2, 3, 4]).unwrap();
    let positions: Vec<Pos<usize>> = vec![];
    let elements: Vec<_> = iter_from_pos(&grid, &positions);
    assert!(elements.is_empty());
}

#[test]
fn test_iter_with_pos_empty_positions() {
    let grid = GridBuf::from_row_major(2, 2, vec![1, 2, 3, 4]).unwrap();
    let positions: Vec<Pos<usize>> = vec![];
    let elements: Vec<_> = iter_with_pos(&grid, &positions);
    assert!(elements.is_empty());
}

#[test]
fn iter_with_pos_leaves_out_what_cannot_be_a_position() {
    let grid = GridBuf::from_row_major(2, 2, vec![1, 2, 3, 4]).unwrap();
    let positions = vec![Pos::new(-1, 0), Pos::new(1, 1), Pos::new(0, -1)];
    let elements: Vec<_> = iter_with_pos(&grid, &positions);
    assert_eq!(elements, &[(Pos::new(1, 1), &4)]);
}

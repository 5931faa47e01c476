//! Checked access to a grid, built on its unchecked access and its size.
use vstd::prelude::*;

use crate::grid::{cell_at, cells_span, cells_with, GridReadUnchecked, GridWriteUnchecked};
use crate::pos::TryIntoPos;
use crate::size::{HasSize, Size};

verus! {

/// Returns a reference to the element at the specified position.
///
/// If the position is out of bounds, returns `None`.
///
/// The grid must hold an element at every position of its size.
pub fn get_from_unchecked<G: GridReadUnchecked + HasSize, P: TryIntoPos<usize>>(
    grid: &G,
    pos: P,
) -> (r: Option<&G::Element>)
    requires
        grid.wf(),
        grid.has_size(),
        cells_span(grid.cells(), grid.spec_size()),
    ensures
        match cell_at(grid.cells(), pos.try_into_pos_spec()) {
            Some(e) => r == Some(&e),
            None => r.is_none(),
        },
{
    let size = grid.size();
    get_from_unchecked_with_size(grid, pos, size)
}

/// Returns a reference to the element at the specified position.
///
/// If the position is out of the bounds that `size` gives, returns `None`.
///
/// The grid must hold an element at every position of `size`.
pub fn get_from_unchecked_with_size<G: GridReadUnchecked, P: TryIntoPos<usize>>(
    grid: &G,
    pos: P,
    size: Size,
) -> (r: Option<&G::Element>)
    requires
        grid.wf(),
        cells_span(grid.cells(), size),
    ensures
        match cell_at(grid.cells(), pos.try_into_pos_spec()) {
            Some(e) => r == Some(&e),
            None => r.is_none(),
        },
{
    let pos = match pos.try_into_pos() {
        Ok(pos) => pos,
        Err(_) => { return None; },
    };
    if pos.x >= size.width || pos.y >= size.height {
        return None;
    }
    Some(grid.get_unchecked(pos.x, pos.y))
}

/// Sets the element at the specified position.
///
/// If the position is out of bounds, does nothing.
///
/// The grid must hold an element at every position of its size.
pub fn set_from_unchecked<G: GridWriteUnchecked + HasSize, P: TryIntoPos<usize>>(
    grid: &mut G,
    pos: P,
    value: G::Element,
)
    requires
        old(grid).wf(),
        old(grid).has_size(),
        cells_span(old(grid).cells(), old(grid).spec_size()),
    ensures
        final(grid).wf(),
        final(grid).cells() == cells_with(old(grid).cells(), pos.try_into_pos_spec(), value),
{
    let size = grid.size();
    set_from_unchecked_with_size(grid, pos, value, size)
}

/// Sets the element at the specified position.
///
/// If the position is out of the bounds that `size` gives, does nothing.
///
/// The grid must hold an element at every position of `size`.
pub fn set_from_unchecked_with_size<G: GridWriteUnchecked, P: TryIntoPos<usize>>(
    grid: &mut G,
    pos: P,
    value: G::Element,
    size: Size,
)
    requires
        old(grid).wf(),
        cells_span(old(grid).cells(), size),
    ensures
        final(grid).wf(),
        final(grid).cells() == cells_with(old(grid).cells(), pos.try_into_pos_spec(), value),
{
    let pos = match pos.try_into_pos() {
        Ok(pos) => pos,
        Err(_) => { return ; },
    };
    if pos.x >= size.width || pos.y >= size.height {
        return ;
    }
    grid.set_unchecked(pos.x, pos.y, value)
}

} // verus!

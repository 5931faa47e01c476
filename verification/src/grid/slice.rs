//! Grids that keep their elements in a slice.
use vstd::prelude::*;

use crate::grid::linear::{linear_cells, linear_fits, GridBuf};
use crate::grid::{cell_at, cells_with};
use crate::index::{Layout, RowMajor};
use crate::pos::TryIntoPos;
use crate::size::Size;

verus! {

/// A grid implementation backed by a mutable slice.
pub struct SliceGrid<'a, E, L: Layout = RowMajor> {
    cells: GridBuf<E, &'a mut [E], L>,
}

impl<'a, E, L: Layout> SliceGrid<'a, E, L> {
    /// The elements in the order in which the grid keeps them.
    pub closed spec fn elems(&self) -> Seq<E> {
        self.cells.store()@
    }

    /// The width and the height of the grid.
    pub closed spec fn extent(&self) -> Size {
        self.cells.extent()
    }

    /// Whether the grid holds as many elements as its dimensions ask for.
    pub open spec fn wf(&self) -> bool {
        linear_fits::<L>(self.elems().len(), self.extent())
    }

    /// The elements of the grid by their positions.
    pub open spec fn cells(&self) -> Map<(int, int), E> {
        linear_cells::<E, L>(self.elems(), self.extent())
    }

    /// Creates a new grid with the given width and height from the elements
    /// of `data`, which must be `width * height` elements.
    pub fn with_cells(width: usize, height: usize, data: &'a mut [E]) -> (r: Self)
        requires
            linear_fits::<L>(old(data)@.len(), Size { width, height }),
        ensures
            r.wf(),
            r.extent() == (Size { width, height }),
            r.elems() == old(data)@,
    {
        Self { cells: GridBuf::from_cells_unchecked(width, height, data) }
    }

    /// Returns the width of the grid.
    pub fn width(&self) -> (r: usize)
        ensures
            r == self.extent().width,
    {
        self.cells.width()
    }

    /// Returns the height of the grid.
    pub fn height(&self) -> (r: usize)
        ensures
            r == self.extent().height,
    {
        self.cells.height()
    }

    /// Returns a reference to the element at the specified position.
    ///
    /// If the position is out of bounds, returns `None`.
    pub fn get<P: TryIntoPos<usize>>(&self, pos: P) -> (r: Option<&E>)
        requires
            self.wf(),
        ensures
            match cell_at(self.cells(), pos.try_into_pos_spec()) {
                Some(e) => r == Some(&e),
                None => r.is_none(),
            },
    {
        self.cells.get(pos)
    }

    /// Returns a mutable reference to the element at the specified position.
    ///
    /// If the position is out of bounds, returns `None`.
    pub fn get_mut<P: TryIntoPos<usize>>(&mut self, pos: P) -> (r: Option<&mut E>)
        requires
            old(self).wf(),
        ensures
            final(self).wf(),
            final(self).extent() == old(self).extent(),
            match cell_at(old(self).cells(), pos.try_into_pos_spec()) {
                Some(e) => r.is_some() && *r.unwrap() == e && final(self).cells() == cells_with(
                    old(self).cells(),
                    pos.try_into_pos_spec(),
                    *final(r.unwrap()),
                ),
                None => r.is_none() && final(self).cells() == old(self).cells(),
            },
    {
        self.cells.get_mut(pos)
    }

    /// Sets the element at the specified position.
    ///
    /// If the position is out of bounds, does nothing.
    pub fn set<P: TryIntoPos<usize>>(&mut self, pos: P, value: E)
        requires
            old(self).wf(),
        ensures
            final(self).wf(),
            final(self).extent() == old(self).extent(),
            final(self).cells() == cells_with(old(self).cells(), pos.try_into_pos_spec(), value),
    {
        self.cells.set(pos, value);
    }
}

} // verus!

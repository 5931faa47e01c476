//! Grids that keep their elements in an array.
use vstd::prelude::*;

use crate::grid::linear::{linear_cells, linear_fits, GridBuf};
use crate::grid::{cell_at, cells_with};
use crate::index::{Layout, RowMajor};
use crate::pos::TryIntoPos;
use crate::size::Size;

verus! {

/// A grid implementation backed by a fixed-size array of `LENGTH` elements.
pub struct ArrayGrid<E, const LENGTH: usize, L: Layout = RowMajor> {
    cells: GridBuf<E, [E; LENGTH], L>,
}

impl<E, const LENGTH: usize, L: Layout> ArrayGrid<E, LENGTH, L> {
    /// The elements in the order in which the grid keeps them.
    pub closed spec fn elems(&self) -> Seq<E> {
        self.cells.store()@
    }

    /// The width and the height of the grid.
    pub closed spec fn extent(&self) -> Size {
        self.cells.extent()
    }

    /// Whether the grid holds as many elements as its dimensions ask for.
    pub open spec fn wf(&self) -> bool {
        linear_fits::<L>(self.elems().len(), self.extent())
    }

    /// The elements of the grid by their positions.
    pub open spec fn cells(&self) -> Map<(int, int), E> {
        linear_cells::<E, L>(self.elems(), self.extent())
    }

    /// Creates a new grid with the given width and height, filled with the
    /// given value.
    ///
    /// `LENGTH` must be equal to `width * height`.
    #[must_use]
    pub fn new(width: usize, height: usize, value: E) -> (r: Self) where E: Copy
        requires
            linear_fits::<L>(LENGTH as nat, Size { width, height }),
        ensures
            r.wf(),
            r.extent() == (Size { width, height }),
            r.elems() == Seq::new(LENGTH as nat, |i: int| value),
    {
        let data = [value;LENGTH];
        proof {
            vstd::array::axiom_spec_array_fill_for_copy_type::<E, LENGTH>(value);
            assert(data@ =~= Seq::new(LENGTH as nat, |i: int| value));
        }
        Self { cells: GridBuf::from_cells_unchecked(width, height, data) }
    }

    /// Creates a new grid with the given width and height, filled with the
    /// default value of the element type.
    ///
    /// `LENGTH` must be equal to `width * height`.
    #[must_use]
    pub fn with_default(width: usize, height: usize) -> (r: Self) where E: Copy + Default
        requires
            linear_fits::<L>(LENGTH as nat, Size { width, height }),
        ensures
            r.wf(),
            r.extent() == (Size { width, height }),
            exists|value: E|
                call_ensures(E::default, (), value) && r.elems() == Seq::new(
                    LENGTH as nat,
                    |i: int| value,
                ),
    {
        Self::new(width, height, E::default())
    }

    /// Creates a new grid with the given width and height from the elements
    /// of `data`.
    ///
    /// `LENGTH` must be equal to `width * height`.
    #[must_use]
    pub fn with_cells(width: usize, height: usize, data: [E; LENGTH]) -> (r: Self)
        requires
            linear_fits::<L>(LENGTH as nat, Size { width, height }),
        ensures
            r.wf(),
            r.extent() == (Size { width, height }),
            r.elems() == data@,
    {
        Self { cells: GridBuf::from_cells_unchecked(width, height, data) }
    }

    /// Returns the width of the grid.
    pub fn width(&self) -> (r: usize)
        ensures
            r == self.extent().width,
    {
        self.cells.width()
    }

    /// Returns the height of the grid.
    pub fn height(&self) -> (r: usize)
        ensures
            r == self.extent().height,
    {
        self.cells.height()
    }

    /// Returns a reference to the element at the specified position.
    ///
    /// If the position is out of bounds, returns `None`.
    pub fn get<P: TryIntoPos<usize>>(&self, pos: P) -> (r: Option<&E>)
        requires
            self.wf(),
        ensures
            match cell_at(self.cells(), pos.try_into_pos_spec()) {
                Some(e) => r == Some(&e),
                None => r.is_none(),
            },
    {
        self.cells.get(pos)
    }

    /// Returns a mutable reference to the element at the specified position.
    ///
    /// If the position is out of bounds, returns `None`.
    pub fn get_mut<P: TryIntoPos<usize>>(&mut self, pos: P) -> (r: Option<&mut E>)
        requires
            old(self).wf(),
        ensures
            final(self).wf(),
            final(self).extent() == old(self).extent(),
            match cell_at(old(self).cells(), pos.try_into_pos_spec()) {
                Some(e) => r.is_some() && *r.unwrap() == e && final(self).cells() == cells_with(
                    old(self).cells(),
                    pos.try_into_pos_spec(),
                    *final(r.unwrap()),
                ),
                None => r.is_none() && final(self).cells() == old(self).cells(),
            },
    {
        self.cells.get_mut(pos)
    }

    /// Sets the element at the specified position.
    ///
    /// If the position is out of bounds, does nothing.
    pub fn set<P: TryIntoPos<usize>>(&mut self, pos: P, value: E)
        requires
            old(self).wf(),
        ensures
            final(self).wf(),
            final(self).extent() == old(self).extent(),
            final(self).cells() == cells_with(old(self).cells(), pos.try_into_pos_spec(), value),
    {
        self.cells.set(pos, value);
    }
}

} // verus!

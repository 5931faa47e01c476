//! Grids: 2-dimensional containers that are read and written by position.
use vstd::prelude::*;

use crate::pos::{Pos, TryFromPosError, TryIntoPos};
use crate::rect::Rect;
use crate::size::{HasSize, Size};

pub mod array;
pub mod impls;
pub mod iter;
pub mod linear;
pub mod slice;
pub mod vec;
pub mod view;

pub use array::ArrayGrid;
pub use linear::GridBuf;
pub use slice::SliceGrid;
pub use vec::VecGrid;
pub use view::{no_window, window_fits, GridSubView, GridView, GridViewMut};

verus! {

/// An error that occurs when creating a grid or a view of one.
#[derive(Debug, Clone, Copy, PartialEq, Eq, Structural)]
pub enum GridError {
    /// The dimensions given do not fit what they are meant for.
    InvalidDimensions,
}

/// What reading at `pos` gives: the element at the position, if the
/// conversion gave a position and `cells` holds an element there.
pub open spec fn cell_at<E>(cells: Map<(int, int), E>, pos: Result<Pos<usize>, TryFromPosError>)
    -> Option<E> {
    match pos {
        Ok(p) => if cells.dom().contains(p@) {
            Some(cells[p@])
        } else {
            None
        },
        Err(_) => None,
    }
}

/// What writing `value` at `pos` makes of `cells`: the element at the
/// position is replaced, if the conversion gave a position and `cells` holds
/// an element there; nothing changes otherwise.
pub open spec fn cells_with<E>(
    cells: Map<(int, int), E>,
    pos: Result<Pos<usize>, TryFromPosError>,
    value: E,
) -> Map<(int, int), E> {
    match pos {
        Ok(p) => if cells.dom().contains(p@) {
            cells.insert(p@, value)
        } else {
            cells
        },
        Err(_) => cells,
    }
}

/// Whether `cells` holds an element at exactly the positions of a grid of `size`.
pub open spec fn cells_span<E>(cells: Map<(int, int), E>, size: Size) -> bool {
    forall|p: (int, int)| #[trigger]
        cells.dom().contains(p) <==> 0 <= p.0 < size.width && 0 <= p.1 < size.height
}

/// A 2-dimensional container: it holds an element at each of its positions.
pub trait Grid {
    /// The type of elements in the grid.
    type Element;

    /// Whether the grid is in order: what it holds fits its dimensions.
    spec fn wf(&self) -> bool;

    /// The elements of the grid by their positions.
    spec fn cells(&self) -> Map<(int, int), Self::Element>;
}

/// Unchecked read-only access to a grid.
pub trait GridReadUnchecked: Grid {
    /// Returns a reference to the element at the specified position.
    ///
    /// The grid must hold an element at the position.
    fn get_unchecked(&self, x: usize, y: usize) -> (r: &Self::Element)
        requires
            self.wf(),
            self.cells().dom().contains((x as int, y as int)),
        ensures
            *r == self.cells()[(x as int, y as int)],
    ;
}

/// Checked read-only access to a grid.
pub trait GridRead: Grid {
    /// Returns a reference to the element at the specified position.
    ///
    /// If the position is out of bounds, returns `None`.
    fn get<P: TryIntoPos<usize>>(&self, pos: P) -> (r: Option<&Self::Element>)
        requires
            self.wf(),
        ensures
            match cell_at(self.cells(), pos.try_into_pos_spec()) {
                Some(e) => r == Some(&e),
                None => r.is_none(),
            },
    ;
}

/// Unchecked access to the elements of a grid, to change them in place.
pub trait GridReadMutUnchecked: Grid {
    /// Returns a mutable reference to the element at the specified position.
    ///
    /// The grid must hold an element at the position.
    fn get_mut_unchecked(&mut self, x: usize, y: usize) -> (r: &mut Self::Element)
        requires
            old(self).wf(),
            old(self).cells().dom().contains((x as int, y as int)),
        ensures
            *r == old(self).cells()[(x as int, y as int)],
            final(self).wf(),
            final(self).cells() == old(self).cells().insert((x as int, y as int), *final(r)),
    ;
}

/// Checked access to the elements of a grid, to change them in place.
pub trait GridReadMut: Grid {
    /// Returns a mutable reference to the element at the specified position.
    ///
    /// If the position is out of bounds, returns `None`.
    fn get_mut<P: TryIntoPos<usize>>(&mut self, pos: P) -> (r: Option<&mut Self::Element>)
        requires
            old(self).wf(),
        ensures
            final(self).wf(),
            match cell_at(old(self).cells(), pos.try_into_pos_spec()) {
                Some(e) => r.is_some() && *r.unwrap() == e && final(self).cells() == cells_with(
                    old(self).cells(),
                    pos.try_into_pos_spec(),
                    *final(r.unwrap()),
                ),
                None => r.is_none() && final(self).cells() == old(self).cells(),
            },
    ;
}

/// Unchecked write access to a grid.
pub trait GridWriteUnchecked: Grid {
    /// Sets the element at the specified position.
    ///
    /// The grid must hold an element at the position.
    fn set_unchecked(&mut self, x: usize, y: usize, value: Self::Element)
        requires
            old(self).wf(),
            old(self).cells().dom().contains((x as int, y as int)),
        ensures
            final(self).wf(),
            final(self).cells() == old(self).cells().insert((x as int, y as int), value),
    ;
}

/// Checked write access to a grid.
pub trait GridWrite: Grid {
    /// Sets the element at the specified position.
    ///
    /// If the position is out of bounds, does nothing.
    fn set<P: TryIntoPos<usize>>(&mut self, pos: P, value: Self::Element)
        requires
            old(self).wf(),
        ensures
            final(self).wf(),
            final(self).cells() == cells_with(old(self).cells(), pos.try_into_pos_spec(), value),
    ;
}

impl<'a, T: Grid> Grid for &'a T {
    type Element = T::Element;

    open spec fn wf(&self) -> bool {
        (**self).wf()
    }

    open spec fn cells(&self) -> Map<(int, int), Self::Element> {
        (**self).cells()
    }
}

impl<'a, T: GridReadUnchecked> GridReadUnchecked for &'a T {
    fn get_unchecked(&self, x: usize, y: usize) -> (r: &Self::Element) {
        (**self).get_unchecked(x, y)
    }
}

impl<'a, T: GridRead> GridRead for &'a T {
    fn get<P: TryIntoPos<usize>>(&self, pos: P) -> (r: Option<&Self::Element>) {
        (**self).get(pos)
    }
}

impl<'a, T: Grid> Grid for &'a mut T {
    type Element = T::Element;

    open spec fn wf(&self) -> bool {
        (**self).wf()
    }

    open spec fn cells(&self) -> Map<(int, int), Self::Element> {
        (**self).cells()
    }
}

impl<'a, T: GridReadUnchecked> GridReadUnchecked for &'a mut T {
    fn get_unchecked(&self, x: usize, y: usize) -> (r: &Self::Element) {
        (**self).get_unchecked(x, y)
    }
}

impl<'a, T: GridRead> GridRead for &'a mut T {
    fn get<P: TryIntoPos<usize>>(&self, pos: P) -> (r: Option<&Self::Element>) {
        (**self).get(pos)
    }
}

impl<'a, T: GridReadMutUnchecked> GridReadMutUnchecked for &'a mut T {
    fn get_mut_unchecked(&mut self, x: usize, y: usize) -> (r: &mut Self::Element) {
        (**self).get_mut_unchecked(x, y)
    }
}

impl<'a, T: GridReadMut> GridReadMut for &'a mut T {
    fn get_mut<P: TryIntoPos<usize>>(&mut self, pos: P) -> (r: Option<&mut Self::Element>) {
        (**self).get_mut(pos)
    }
}

impl<'a, T: GridWriteUnchecked> GridWriteUnchecked for &'a mut T {
    fn set_unchecked(&mut self, x: usize, y: usize, value: Self::Element) {
        (**self).set_unchecked(x, y, value)
    }
}

impl<'a, T: GridWrite> GridWrite for &'a mut T {
    fn set<P: TryIntoPos<usize>>(&mut self, pos: P, value: Self::Element) {
        (**self).set(pos, value)
    }
}

/// Views for every grid that can be read and has a size.
pub trait GridReadExt: GridRead {
    /// Returns a view of the grid within the given rectangle.
    ///
    /// If the rectangle does not lie within the grid, the view is empty.
    fn view(&self, rect: Rect<usize>) -> (r: GridView<Self, &Self, Self::Element>) where
        Self: HasSize + Sized,

        requires
            self.has_size(),
            rect@.wf(),
        ensures
            r.parent() == self,
            r.window() == if window_fits(rect@, self.spec_size()) {
                rect@
            } else {
                no_window()
            },
    {
        let size = self.size();
        if rect.right() <= size.width && rect.bottom() <= size.height {
            GridView::new_unchecked(self, rect)
        } else {
            GridView::empty(self)
        }
    }
}

/// Mutable views for every grid that can be written and has a size.
pub trait GridWriteExt: GridWrite {
    /// Returns a mutable view of the grid within the given rectangle.
    ///
    /// If the rectangle does not lie within the grid, the view is empty.
    fn view_mut(&mut self, rect: Rect<usize>) -> (r: GridViewMut<
        Self,
        &mut Self,
        Self::Element,
    >) where Self: HasSize + Sized

        requires
            old(self).has_size(),
            rect@.wf(),
        ensures
            r.parent().cells() == old(self).cells(),
            r.parent().wf() == old(self).wf(),
            r.window() == if window_fits(rect@, old(self).spec_size()) {
                rect@
            } else {
                no_window()
            },
    {
        let size = self.size();
        if rect.right() <= size.width && rect.bottom() <= size.height {
            GridViewMut::new_unchecked(self, rect)
        } else {
            GridViewMut::empty(self)
        }
    }
}

impl<T: GridRead> GridReadExt for T {}

impl<T: GridWrite> GridWriteExt for T {}

} // verus!

//! Windows into grids.
use core::marker::PhantomData;
use core::ops::Deref;
use vstd::prelude::*;

use crate::grid::{Grid, GridError, GridRead, GridReadMut, GridReadUnchecked, GridWrite};
use crate::pos::{Pos, TryFromPosError, TryIntoPos};
use crate::rect::{Bounds, Rect};
use crate::size::{HasSize, Size};

verus! {

/// The window of an empty view.
pub open spec fn no_window() -> Bounds {
    Bounds { left: 0, top: 0, right: 0, bottom: 0 }
}

/// Whether `window` lies within a grid of `size`.
pub open spec fn window_fits(window: Bounds, size: Size) -> bool {
    window.right <= size.width && window.bottom <= size.height
}

/// The elements that a window into `cells` shows, by their positions within
/// the window: the position `p` of the window is the position
/// `(window.left + p.0, window.top + p.1)` of the grid.
pub open spec fn window_cells<E>(cells: Map<(int, int), E>, window: Bounds) -> Map<(int, int), E> {
    Map::new(
        |p: (int, int)|
            0 <= p.0 < window.width() && 0 <= p.1 < window.height() && cells.dom().contains(
                (window.left + p.0, window.top + p.1),
            ),
        |p: (int, int)| cells[(window.left + p.0, window.top + p.1)],
    )
}

/// What writing `value` at the position `pos` of a window makes of the
/// `cells` of the grid: the element at the position is replaced, if the
/// conversion gave a position, the position lies in the window and the grid
/// holds an element there; nothing changes otherwise.
pub open spec fn window_write<E>(
    cells: Map<(int, int), E>,
    window: Bounds,
    pos: Result<Pos<usize>, TryFromPosError>,
    value: E,
) -> Map<(int, int), E> {
    match pos {
        Ok(p) => if window_cells(cells, window).dom().contains(p@) {
            cells.insert((window.left + p@.0, window.top + p@.1), value)
        } else {
            cells
        },
        Err(_) => cells,
    }
}

/// A view into a grid, which is a rectangular region of cells.
///
/// A view is a lightweight, read-only reference to a specific area of a
/// grid. Positions are counted from the top-left corner of the window.
#[verifier::reject_recursive_types(T)]
pub struct GridView<T, G: Deref<Target = T>, E> {
    grid: G,
    rect: Rect<usize>,
    cell: PhantomData<E>,
}

impl<T, G: Deref<Target = T>, E> GridView<T, G, E> {
    /// The grid that the view looks into.
    pub closed spec fn parent(&self) -> G {
        self.grid
    }

    /// The region of the grid that the view shows.
    pub closed spec fn window(&self) -> Bounds {
        self.rect@
    }

    /// Creates a view of nothing.
    pub fn empty(grid: G) -> (r: Self)
        ensures
            r.parent() == grid,
            r.window() == no_window(),
    {
        Self { grid, rect: Rect::empty(), cell: PhantomData }
    }

    /// Creates a new view into the grid with the specified rectangle.
    ///
    /// Fails if the rectangle does not lie within the grid.
    pub fn new(grid: G, rect: Rect<usize>) -> (r: Result<Self, GridError>) where G: HasSize
        requires
            grid.has_size(),
            rect@.wf(),
        ensures
            window_fits(rect@, grid.spec_size()) ==> r.is_ok() && r.unwrap().parent()
                == grid && r.unwrap().window() == rect@,
            !window_fits(rect@, grid.spec_size()) ==> r == Err::<Self, GridError>(
                GridError::InvalidDimensions,
            ),
    {
        let size = grid.size();
        if rect.right() <= size.width && rect.bottom() <= size.height {
            Ok(Self::new_unchecked(grid, rect))
        } else {
            Err(GridError::InvalidDimensions)
        }
    }

    /// Creates a new view into the grid, without checking that the rectangle
    /// lies within the grid.
    pub fn new_unchecked(grid: G, rect: Rect<usize>) -> (r: Self)
        requires
            rect@.wf(),
        ensures
            r.parent() == grid,
            r.window() == rect@,
    {
        proof {
            rect.lemma_view(rect);
        }
        Self { grid, rect, cell: PhantomData }
    }
}

impl<T, G: Deref<Target = T>, E> HasSize for GridView<T, G, E> {
    open spec fn has_size(&self) -> bool {
        self.window().wf()
    }

    open spec fn spec_size(&self) -> Size {
        Size { width: self.window().width() as usize, height: self.window().height() as usize }
    }

    fn size(&self) -> (r: Size) {
        proof {
            self.rect.lemma_view(self.rect);
        }
        Size { width: self.rect.width(), height: self.rect.height() }
    }
}

impl<T, G: Deref<Target = T> + Grid<Element = E>, E> Grid for GridView<T, G, E> {
    type Element = E;

    open spec fn wf(&self) -> bool {
        self.parent().wf() && self.window().wf()
    }

    open spec fn cells(&self) -> Map<(int, int), E> {
        window_cells(self.parent().cells(), self.window())
    }
}

impl<T, G: Deref<Target = T> + GridReadUnchecked<Element = E>, E> GridReadUnchecked for GridView<
    T,
    G,
    E,
> {
    fn get_unchecked(&self, x: usize, y: usize) -> (r: &E) {
        proof {
            self.rect.lemma_view(self.rect);
        }
        let x = self.rect.left() + x;
        let y = self.rect.top() + y;
        self.grid.get_unchecked(x, y)
    }
}

impl<T, G: Deref<Target = T> + GridRead<Element = E>, E> GridRead for GridView<T, G, E> {
    fn get<P: TryIntoPos<usize>>(&self, pos: P) -> (r: Option<&E>) {
        proof {
            self.rect.lemma_view(self.rect);
        }
        let pos = match pos.try_into_pos() {
            Ok(pos) => pos,
            Err(_) => { return None; },
        };
        if pos.x >= self.rect.width() || pos.y >= self.rect.height() {
            return None;
        }
        let at = Pos::new(self.rect.left() + pos.x, self.rect.top() + pos.y);
        proof {
            at.lemma_view(at);
        }
        self.grid.get(at)
    }
}

/// A mutable view into a grid, which is a rectangular region of cells.
///
/// Positions are counted from the top-left corner of the window. What lies
/// outside of the window can neither be read nor written through the view.
#[verifier::reject_recursive_types(T)]
pub struct GridViewMut<T, G: Deref<Target = T>, E> {
    grid: G,
    rect: Rect<usize>,
    cell: PhantomData<E>,
}

impl<T, G: Deref<Target = T>, E> GridViewMut<T, G, E> {
    /// The grid that the view looks into.
    pub closed spec fn parent(&self) -> G {
        self.grid
    }

    /// The region of the grid that the view shows.
    pub closed spec fn window(&self) -> Bounds {
        self.rect@
    }

    /// Creates a view of nothing.
    pub fn empty(grid: G) -> (r: Self)
        ensures
            r.parent() == grid,
            r.window() == no_window(),
    {
        Self { grid, rect: Rect::empty(), cell: PhantomData }
    }

    /// Creates a new view into the grid with the specified rectangle.
    ///
    /// Fails if the rectangle does not lie within the grid.
    pub fn new(grid: G, rect: Rect<usize>) -> (r: Result<Self, GridError>) where G: HasSize
        requires
            grid.has_size(),
            rect@.wf(),
        ensures
            window_fits(rect@, grid.spec_size()) ==> r.is_ok() && r.unwrap().parent()
                == grid && r.unwrap().window() == rect@,
            !window_fits(rect@, grid.spec_size()) ==> r == Err::<Self, GridError>(
                GridError::InvalidDimensions,
            ),
    {
        let size = grid.size();
        if rect.right() <= size.width && rect.bottom() <= size.height {
            Ok(Self::new_unchecked(grid, rect))
        } else {
            Err(GridError::InvalidDimensions)
        }
    }

    /// Creates a new view into the grid, without checking that the rectangle
    /// lies within the grid.
    pub fn new_unchecked(grid: G, rect: Rect<usize>) -> (r: Self)
        requires
            rect@.wf(),
        ensures
            r.parent() == grid,
            r.window() == rect@,
    {
        proof {
            rect.lemma_view(rect);
        }
        Self { grid, rect, cell: PhantomData }
    }

    /// Gives the grid back.
    pub fn into_parent(self) -> (r: G)
        ensures
            r == self.parent(),
    {
        self.grid
    }
}

impl<T, G: Deref<Target = T>, E> HasSize for GridViewMut<T, G, E> {
    open spec fn has_size(&self) -> bool {
        self.window().wf()
    }

    open spec fn spec_size(&self) -> Size {
        Size { width: self.window().width() as usize, height: self.window().height() as usize }
    }

    fn size(&self) -> (r: Size) {
        proof {
            self.rect.lemma_view(self.rect);
        }
        Size { width: self.rect.width(), height: self.rect.height() }
    }
}

impl<T, G: Deref<Target = T> + Grid<Element = E>, E> Grid for GridViewMut<T, G, E> {
    type Element = E;

    open spec fn wf(&self) -> bool {
        self.parent().wf() && self.window().wf()
    }

    open spec fn cells(&self) -> Map<(int, int), E> {
        window_cells(self.parent().cells(), self.window())
    }
}

impl<T, G: Deref<Target = T> + GridRead<Element = E>, E> GridRead for GridViewMut<T, G, E> {
    fn get<P: TryIntoPos<usize>>(&self, pos: P) -> (r: Option<&E>) {
        proof {
            self.rect.lemma_view(self.rect);
        }
        let pos = match pos.try_into_pos() {
            Ok(pos) => pos,
            Err(_) => { return None; },
        };
        if pos.x >= self.rect.width() || pos.y >= self.rect.height() {
            return None;
        }
        let at = Pos::new(self.rect.left() + pos.x, self.rect.top() + pos.y);
        proof {
            at.lemma_view(at);
        }
        self.grid.get(at)
    }
}

impl<T, G: Deref<Target = T> + GridReadMut<Element = E>, E> GridReadMut for GridViewMut<T, G, E> {
    /// Returns a mutable reference to the element at the specified position
    /// of the window.
    ///
    /// If the position is outside of the window or of the grid, returns
    /// `None`.
    fn get_mut<P: TryIntoPos<usize>>(&mut self, pos: P) -> (r: Option<&mut E>)
        ensures
            final(self).window() == old(self).window(),
    {
        proof {
            self.rect.lemma_view(self.rect);
        }
        let pos = match pos.try_into_pos() {
            Ok(pos) => pos,
            Err(_) => { return None; },
        };
        if pos.x >= self.rect.width() || pos.y >= self.rect.height() {
            return None;
        }
        let at = Pos::new(self.rect.left() + pos.x, self.rect.top() + pos.y);
        proof {
            at.lemma_view(at);
        }
        self.grid.get_mut(at)
    }
}

impl<T, G: Deref<Target = T> + GridWrite<Element = E>, E> GridWrite for GridViewMut<T, G, E> {
    /// Sets the element at the specified position of the window.
    ///
    /// If the position is outside of the window or of the grid, does nothing:
    /// the grid stays as it is.
    fn set<P: TryIntoPos<usize>>(&mut self, pos: P, value: E)
        ensures
            final(self).window() == old(self).window(),
            final(self).parent().cells() == window_write(
                old(self).parent().cells(),
                old(self).window(),
                pos.try_into_pos_spec(),
                value,
            ),
    {
        proof {
            self.rect.lemma_view(self.rect);
        }
        let pos = match pos.try_into_pos() {
            Ok(pos) => pos,
            Err(_) => { return ; },
        };
        if pos.x >= self.rect.width() || pos.y >= self.rect.height() {
            return ;
        }
        let at = Pos::new(self.rect.left() + pos.x, self.rect.top() + pos.y);
        proof {
            at.lemma_view(at);
        }
        self.grid.set(at, value);
    }
}

/// Views for every grid that can be read and has a size.
pub trait GridSubView: Grid {
    /// Creates a view into the grid with the specified rectangle, without
    /// checking that the rectangle lies within the grid.
    fn view_unchecked(&self, rect: Rect<usize>) -> (r: GridView<Self, &Self, Self::Element>) where
        Self: Sized,

        requires
            rect@.wf(),
        ensures
            r.parent() == self,
            r.window() == rect@,
    {
        GridView::new_unchecked(self, rect)
    }

    /// Creates a view into the grid with the specified rectangle.
    ///
    /// Fails if the rectangle does not lie within the grid.
    fn view(&self, rect: Rect<usize>) -> (r: Result<
        GridView<Self, &Self, Self::Element>,
        GridError,
    >) where Self: Sized + HasSize

        requires
            self.has_size(),
            rect@.wf(),
        ensures
            window_fits(rect@, self.spec_size()) ==> r.is_ok() && r.unwrap().parent()
                == self && r.unwrap().window() == rect@,
            !window_fits(rect@, self.spec_size()) ==> r.is_err() && r matches Err(GridError::InvalidDimensions),
    ;
}

impl<T: GridRead + HasSize> GridSubView for T {
    fn view(&self, rect: Rect<usize>) -> (r: Result<
        GridView<Self, &Self, Self::Element>,
        GridError,
    >) where Self: Sized {
        GridView::new(self, rect)
    }
}

} // verus!

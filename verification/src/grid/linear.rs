//! Grids that keep their elements in linear memory.
use core::marker::PhantomData;
use vstd::prelude::*;

use crate::grid::impls;
use crate::grid::{
    cell_at, cells_with, Grid, GridError, GridRead, GridReadMut, GridReadMutUnchecked,
    GridReadUnchecked, GridWrite, GridWriteUnchecked,
};
use crate::index::{ColMajor, Layout, RowMajor};
use crate::pos::{Pos, TryIntoPos};
use crate::size::{HasSize, Size};

verus! {

/// Linear memory that holds elements of the type `E` to read.
pub trait CellStore<E> {
    /// The elements in the order in which the memory holds them.
    spec fn elems(&self) -> Seq<E>;

    /// Returns the elements as a slice.
    fn as_cells(&self) -> (r: &[E])
        ensures
            r@ == self.elems(),
    ;
}

/// Linear memory that holds elements of the type `E` to read and to write.
pub trait CellStoreMut<E>: CellStore<E> {
    /// Returns the elements as a slice, to be changed in place.
    fn as_cells_mut(&mut self) -> (r: &mut [E])
        ensures
            r@ == old(self).elems(),
            final(self).elems() == final(r)@,
    ;

    /// Returns the element at `index`, to be changed in place.
    fn cell_mut(&mut self, index: usize) -> (r: &mut E)
        requires
            index < old(self).elems().len(),
        ensures
            *r == old(self).elems()[index as int],
            final(self).elems() == old(self).elems().update(index as int, *final(r)),
    ;

    /// Replaces the element at `index` by `value`.
    fn put(&mut self, index: usize, value: E)
        requires
            index < old(self).elems().len(),
        ensures
            final(self).elems() == old(self).elems().update(index as int, value),
    ;
}

impl<E> CellStore<E> for Vec<E> {
    open spec fn elems(&self) -> Seq<E> {
        self@
    }

    fn as_cells(&self) -> (r: &[E]) {
        self.as_slice()
    }
}

impl<E> CellStoreMut<E> for Vec<E> {
    fn as_cells_mut(&mut self) -> (r: &mut [E]) {
        self.as_mut_slice()
    }

    fn cell_mut(&mut self, index: usize) -> (r: &mut E) {
        &mut self[index]
    }

    fn put(&mut self, index: usize, value: E) {
        self[index] = value;
    }
}

impl<E, const N: usize> CellStore<E> for [E; N] {
    open spec fn elems(&self) -> Seq<E> {
        self@
    }

    fn as_cells(&self) -> (r: &[E]) {
        self.as_slice()
    }
}

impl<E, const N: usize> CellStoreMut<E> for [E; N] {
    fn as_cells_mut(&mut self) -> (r: &mut [E]) {
        self
    }

    fn cell_mut(&mut self, index: usize) -> (r: &mut E) {
        &mut self[index]
    }

    fn put(&mut self, index: usize, value: E) {
        self[index] = value;
    }
}

impl<'a, E> CellStore<E> for &'a [E] {
    open spec fn elems(&self) -> Seq<E> {
        self@
    }

    fn as_cells(&self) -> (r: &[E]) {
        *self
    }
}

impl<'a, E> CellStore<E> for &'a mut [E] {
    open spec fn elems(&self) -> Seq<E> {
        self@
    }

    fn as_cells(&self) -> (r: &[E]) {
        &**self
    }
}

impl<'a, E> CellStoreMut<E> for &'a mut [E] {
    fn as_cells_mut(&mut self) -> (r: &mut [E]) {
        &mut **self
    }

    fn cell_mut(&mut self, index: usize) -> (r: &mut E) {
        &mut self[index]
    }

    fn put(&mut self, index: usize, value: E) {
        self[index] = value;
    }
}

/// The elements of a grid of `size` whose elements `elems` lie in linear
/// memory in the layout `L`, by their positions.
pub open spec fn linear_cells<E, L: Layout>(elems: Seq<E>, size: Size) -> Map<(int, int), E> {
    Map::new(
        |p: (int, int)| 0 <= p.0 < size.width && 0 <= p.1 < size.height,
        |p: (int, int)| elems[L::index_of(p, L::spec_stride(size))],
    )
}

/// Whether linear memory of `len` elements in the layout `L` holds a grid of
/// `size`.
pub open spec fn linear_fits<L: Layout>(len: nat, size: Size) -> bool {
    size.spec_area() <= usize::MAX && len == size.spec_area() && L::stores(size)
}

/// A 2-dimensional grid that keeps its elements in linear memory.
///
/// The grid is generic over the type `E` of its elements, the memory `T` that
/// holds them and the layout `L` in which they lie there.
pub struct GridBuf<E, T, L: Layout = RowMajor> {
    element: PhantomData<E>,
    data: T,
    width: usize,
    height: usize,
    layout: PhantomData<L>,
}

impl<E, T, L: Layout> GridBuf<E, T, L> {
    /// The memory that holds the elements.
    pub closed spec fn store(&self) -> T {
        self.data
    }

    /// The width and the height of the grid.
    pub closed spec fn extent(&self) -> Size {
        Size { width: self.width, height: self.height }
    }

    /// Returns the width of the grid.
    pub fn width(&self) -> (r: usize)
        ensures
            r == self.extent().width,
    {
        self.width
    }

    /// Returns the height of the grid.
    pub fn height(&self) -> (r: usize)
        ensures
            r == self.extent().height,
    {
        self.height
    }

    /// Returns the memory that holds the elements of the grid.
    pub fn into_cells(self) -> (r: T)
        ensures
            r == self.store(),
    {
        self.data
    }
}

impl<E, T: CellStore<E>, L: Layout> GridBuf<E, T, L> {
    /// Creates a new grid of the given width and height from the elements
    /// that `data` holds.
    ///
    /// Fails if `data` does not hold `width * height` elements, or if the
    /// layout cannot store a grid of this size.
    pub fn from_cells(width: usize, height: usize, data: T) -> (r: Result<Self, GridError>)
        ensures
            linear_fits::<L>(data.elems().len(), Size { width, height }) ==> r.is_ok()
                && r.unwrap().wf() && r.unwrap().store() == data && r.unwrap().extent() == (Size {
                width,
                height,
            }),
            !linear_fits::<L>(data.elems().len(), Size { width, height }) ==> r matches Err(
                GridError::InvalidDimensions,
            ),
    {
        let length = match width.checked_mul(height) {
            Some(length) => length,
            None => { return Err(GridError::InvalidDimensions); },
        };
        if data.as_cells().len() != length {
            return Err(GridError::InvalidDimensions);
        }
        if !L::can_store(Size { width, height }) {
            return Err(GridError::InvalidDimensions);
        }
        Ok(Self::from_cells_unchecked(width, height, data))
    }

    /// Creates a new grid of the given width and height from the elements
    /// that `data` holds, which the caller has counted.
    pub fn from_cells_unchecked(width: usize, height: usize, data: T) -> (r: Self)
        requires
            linear_fits::<L>(data.elems().len(), Size { width, height }),
        ensures
            r.wf(),
            r.store() == data,
            r.extent() == (Size { width, height }),
    {
        Self { element: PhantomData, data, width, height, layout: PhantomData }
    }

    /// Returns a reference to the element at the specified position.
    ///
    /// If the position is out of bounds, returns `None`.
    pub fn get<P: TryIntoPos<usize>>(&self, pos: P) -> (r: Option<&E>)
        requires
            self.wf(),
        ensures
            match cell_at(self.cells(), pos.try_into_pos_spec()) {
                Some(e) => r == Some(&e),
                None => r.is_none(),
            },
    {
        GridRead::get(self, pos)
    }

    /// Returns the elements of the grid in the order of its layout.
    pub fn as_ref(&self) -> (r: &[E])
        ensures
            r@ == self.store().elems(),
    {
        self.data.as_cells()
    }
}

impl<E, T: CellStoreMut<E>, L: Layout> GridBuf<E, T, L> {
    /// Returns the elements of the grid in the order of its layout, to be
    /// changed in place.
    pub fn as_mut(&mut self) -> (r: &mut [E])
        ensures
            r@ == old(self).store().elems(),
            final(self).store().elems() == final(r)@,
            final(self).extent() == old(self).extent(),
    {
        self.data.as_cells_mut()
    }

    /// Returns a mutable reference to the element at the specified position.
    ///
    /// If the position is out of bounds, returns `None`.
    pub fn get_mut<P: TryIntoPos<usize>>(&mut self, pos: P) -> (r: Option<&mut E>)
        requires
            (*old(self)).wf(),
        ensures
            (*final(self)).wf(),
            final(self).extent() == old(self).extent(),
            match cell_at((*old(self)).cells(), pos.try_into_pos_spec()) {
                Some(e) => r.is_some() && *r.unwrap() == e && (*final(self)).cells() == cells_with(
                    (*old(self)).cells(),
                    pos.try_into_pos_spec(),
                    *final(r.unwrap()),
                ),
                None => r.is_none() && (*final(self)).cells() == (*old(self)).cells(),
            },
    {
        GridReadMut::get_mut(self, pos)
    }

    /// Sets the element at the specified position.
    ///
    /// If the position is out of bounds, does nothing.
    pub fn set<P: TryIntoPos<usize>>(&mut self, pos: P, value: E)
        requires
            (*old(self)).wf(),
        ensures
            (*final(self)).wf(),
            final(self).extent() == old(self).extent(),
            (*final(self)).cells() == cells_with(
                (*old(self)).cells(),
                pos.try_into_pos_spec(),
                value,
            ),
    {
        GridWrite::set(self, pos, value);
    }
}

impl<E, T: CellStore<E>> GridBuf<E, T, RowMajor> {
    /// Creates a new grid of the given width and height from elements in
    /// row-major order.
    pub fn from_row_major(width: usize, height: usize, data: T) -> (r: Result<Self, GridError>)
        ensures
            linear_fits::<RowMajor>(data.elems().len(), Size { width, height }) ==> r.is_ok()
                && r.unwrap().wf() && r.unwrap().store() == data && r.unwrap().extent() == (Size {
                width,
                height,
            }),
            !linear_fits::<RowMajor>(data.elems().len(), Size { width, height }) ==> r matches Err(
                GridError::InvalidDimensions,
            ),
    {
        Self::from_cells(width, height, data)
    }
}

impl<E, T: CellStore<E>> GridBuf<E, T, ColMajor> {
    /// Creates a new grid of the given width and height from elements in
    /// column-major order.
    pub fn from_col_major(width: usize, height: usize, data: T) -> (r: Result<Self, GridError>)
        ensures
            linear_fits::<ColMajor>(data.elems().len(), Size { width, height }) ==> r.is_ok()
                && r.unwrap().wf() && r.unwrap().store() == data && r.unwrap().extent() == (Size {
                width,
                height,
            }),
            !linear_fits::<ColMajor>(data.elems().len(), Size { width, height }) ==> r matches Err(
                GridError::InvalidDimensions,
            ),
    {
        Self::from_cells(width, height, data)
    }
}

impl<E, T, L: Layout> HasSize for GridBuf<E, T, L> {
    open spec fn has_size(&self) -> bool {
        true
    }

    open spec fn spec_size(&self) -> Size {
        self.extent()
    }

    fn size(&self) -> (r: Size) {
        Size { width: self.width, height: self.height }
    }
}

impl<E, T: CellStore<E>, L: Layout> Grid for GridBuf<E, T, L> {
    type Element = E;

    open spec fn wf(&self) -> bool {
        linear_fits::<L>(self.store().elems().len(), self.extent())
    }

    open spec fn cells(&self) -> Map<(int, int), E> {
        linear_cells::<E, L>(self.store().elems(), self.extent())
    }
}

impl<E, T: CellStore<E>, L: Layout> GridReadUnchecked for GridBuf<E, T, L> {
    fn get_unchecked(&self, x: usize, y: usize) -> (r: &E) {
        let size = Size { width: self.width, height: self.height };
        proof {
            L::lemma_offsets(size, (x as int, y as int), (x as int, y as int));
        }
        let index = L::to_1d(Pos::new(x, y), L::stride(size));
        &self.data.as_cells()[index]
    }
}

impl<E, T: CellStore<E>, L: Layout> GridRead for GridBuf<E, T, L> {
    fn get<P: TryIntoPos<usize>>(&self, pos: P) -> (r: Option<&E>) {
        impls::get_from_unchecked(self, pos)
    }
}

impl<E, T: CellStoreMut<E>, L: Layout> GridReadMutUnchecked for GridBuf<E, T, L> {
    fn get_mut_unchecked(&mut self, x: usize, y: usize) -> (r: &mut E)
        ensures
            final(self).extent() == old(self).extent(),
    {
        let size = Size { width: self.width, height: self.height };
        let ghost p = (x as int, y as int);
        proof {
            L::lemma_offsets(size, p, p);
        }
        let index = L::to_1d(Pos::new(x, y), L::stride(size));
        let ghost before = self.cells();
        let ghost elems = self.data.elems();
        let r = self.data.cell_mut(index);
        proof {
            let after = linear_cells::<E, L>(elems.update(index as int, *final(r)), size);
            assert forall|q: (int, int)| #[trigger]
                after.dom().contains(q) implies after[q] == before.insert(p, *final(r))[q] by {
                L::lemma_offsets(size, p, q);
                L::lemma_offsets(size, q, p);
            }
            assert(after =~= before.insert(p, *final(r)));
        }
        r
    }
}

impl<E, T: CellStoreMut<E>, L: Layout> GridReadMut for GridBuf<E, T, L> {
    fn get_mut<P: TryIntoPos<usize>>(&mut self, pos: P) -> (r: Option<&mut E>)
        ensures
            final(self).extent() == old(self).extent(),
    {
        let size = Size { width: self.width, height: self.height };
        let pos = match pos.try_into_pos() {
            Ok(pos) => pos,
            Err(_) => { return None; },
        };
        if pos.x >= size.width || pos.y >= size.height {
            return None;
        }
        Some(self.get_mut_unchecked(pos.x, pos.y))
    }
}

impl<E, T: CellStoreMut<E>, L: Layout> GridWriteUnchecked for GridBuf<E, T, L> {
    fn set_unchecked(&mut self, x: usize, y: usize, value: E)
        ensures
            final(self).extent() == old(self).extent(),
    {
        let size = Size { width: self.width, height: self.height };
        let ghost p = (x as int, y as int);
        proof {
            L::lemma_offsets(size, p, p);
        }
        let index = L::to_1d(Pos::new(x, y), L::stride(size));
        self.data.put(index, value);
        proof {
            assert forall|q: (int, int)| #[trigger]
                self.cells().dom().contains(q) implies self.cells()[q] == old(
                self).cells().insert(p, value)[q] by {
                L::lemma_offsets(size, p, q);
                L::lemma_offsets(size, q, p);
            }
            assert(self.cells() =~= old(self).cells().insert(p, value));
        }
    }
}

impl<E, T: CellStoreMut<E>, L: Layout> GridWrite for GridBuf<E, T, L> {
    fn set<P: TryIntoPos<usize>>(&mut self, pos: P, value: E)
        ensures
            final(self).extent() == old(self).extent(),
    {
        let size = Size { width: self.width, height: self.height };
        let pos = match pos.try_into_pos() {
            Ok(pos) => pos,
            Err(_) => { return ; },
        };
        if pos.x >= size.width || pos.y >= size.height {
            return ;
        }
        self.set_unchecked(pos.x, pos.y, value)
    }
}

} // verus!

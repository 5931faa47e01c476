//! Tools for mapping between 2D grid coordinates and 1D memory indices.
//!
//! This module provides a standard interface, [`Layout`], for defining how a 2D grid is stored in
//! linear memory. It includes the three most common memory layouts:
//!
//! * [`RowMajor`]: Elements in the same row are contiguous in memory.
//! * [`ColMajor`]: Elements in the same column are contiguous in memory.
//! * [`Block`]: Elements are stored in fixed-size blocks, which can improve cache locality.
use vstd::prelude::*;

use crate::integer::Int;
use crate::layout;
use crate::layout::block::{block_index, block_pos};
use crate::layout::col_major::{col_major_index, col_major_pos, col_major_positions};
use crate::layout::row_major::{
    row_major_blocks, row_major_index, row_major_pos, row_major_positions,
};
use crate::layout::{
    lemma_floor, lemma_product_order, lemma_quotient, pos_views, rect_views, Linear, Traversal,
};
use crate::pos::Pos;
use crate::rect::{Bounds, Rect};
use crate::size::Size;

verus! {

/// Type erased layout.
#[derive(Debug, Clone, Copy, PartialEq, Eq, Structural)]
#[non_exhaustive]
pub enum AnyLayout {
    /// Row-major layout.
    RowMajor,
    /// Column-major layout.
    ColMajor,
    /// Block layout.
    Block { width: usize, height: usize },
}

/// Whether both coordinates of `p` can be converted to `usize`.
pub open spec fn is_offset(p: (int, int)) -> bool {
    0 <= p.0 <= usize::MAX && 0 <= p.1 <= usize::MAX
}

/// A mapping between a 2-dimensional array and a linear memory layout.
pub trait Layout: Sized {
    /// Whether the index of `p` can be computed for rows of `width` cells.
    spec fn index_req(p: (int, int), width: int) -> bool;

    /// The index of `p` into linear memory with rows of `width` cells.
    spec fn index_of(p: (int, int), width: int) -> int;

    /// Whether the position of `index` can be computed for rows of `width`
    /// cells.
    spec fn pos_req(index: int, width: int) -> bool;

    /// The position of `index` into linear memory with rows of `width` cells.
    spec fn pos_of(index: int, width: int) -> (int, int);

    /// Whether the region can be walked through.
    spec fn cells_req(b: Bounds) -> bool;

    /// The cells of `b` in the order of the layout.
    spec fn cells(b: Bounds) -> Seq<(int, int)>;

    /// The layout as a value.
    spec fn kind() -> AnyLayout;

    /// Whether linear memory in this layout can hold a grid of `size`.
    spec fn stores(size: Size) -> bool;

    /// The length of a row to give to `to_1d` and `to_2d` for a grid of
    /// `size`: the number of cells, or of blocks times their width, that lie
    /// one after the other before the next row starts.
    spec fn spec_stride(size: Size) -> int;

    /// Converts a 2-dimensional position to a linear memory index.
    fn to_1d<T: Int>(pos: Pos<T>, width: usize) -> (r: usize)
        requires
            is_offset(pos@),
            Self::index_req(pos@, width as int),
        ensures
            r == Self::index_of(pos@, width as int),
    ;

    /// Converts a linear memory index to a 2-dimensional position.
    fn to_2d<T: Int>(index: usize, width: usize) -> (r: Pos<T>)
        requires
            Self::pos_req(index as int, width as int),
            Self::pos_of(index as int, width as int).0 <= T::max_int(),
            Self::pos_of(index as int, width as int).1 <= T::max_int(),
        ensures
            r@ == Self::pos_of(index as int, width as int),
    ;

    /// Returns the positions of the given bounds, in the order defined.
    fn positions<T: Int>(bounds: Rect<T>) -> (r: Vec<Pos<T>>)
        requires
            bounds.sized(),
            Self::cells_req(bounds@),
        ensures
            pos_views(r@) == Self::cells(bounds@),
    ;

    /// Returns the layout as a type erased enum.
    fn as_any() -> (r: AnyLayout)
        ensures
            r == Self::kind(),
    ;

    /// Returns whether linear memory in this layout can hold a grid of `size`.
    fn can_store(size: Size) -> (r: bool)
        ensures
            r == Self::stores(size),
    ;

    /// Returns the length of a row to give to `to_1d` and `to_2d` for a grid
    /// of `size`.
    fn stride(size: Size) -> (r: usize)
        ensures
            r == Self::spec_stride(size),
    ;

    /// The positions of a grid that the layout can store have indices of
    /// their own below the number of its cells.
    proof fn lemma_offsets(size: Size, p: (int, int), q: (int, int))
        requires
            Self::stores(size),
            size.spec_area() <= usize::MAX,
            0 <= p.0 < size.width,
            0 <= p.1 < size.height,
            0 <= q.0 < size.width,
            0 <= q.1 < size.height,
        ensures
            Self::index_req(p, Self::spec_stride(size)),
            0 <= Self::index_of(p, Self::spec_stride(size)) < size.spec_area(),
            Self::index_of(p, Self::spec_stride(size)) == Self::index_of(
                q,
                Self::spec_stride(size),
            ) ==> p == q,
    ;
}

/// Continuous memory with the first row at the lowest address.
pub struct RowMajor;

impl Layout for RowMajor {
    open spec fn index_req(p: (int, int), width: int) -> bool {
        row_major_index(p, width) <= usize::MAX
    }

    open spec fn index_of(p: (int, int), width: int) -> int {
        row_major_index(p, width)
    }

    open spec fn pos_req(index: int, width: int) -> bool {
        width > 0
    }

    open spec fn pos_of(index: int, width: int) -> (int, int) {
        row_major_pos(index, width)
    }

    open spec fn cells_req(b: Bounds) -> bool {
        true
    }

    open spec fn cells(b: Bounds) -> Seq<(int, int)> {
        row_major_positions(b)
    }

    open spec fn kind() -> AnyLayout {
        AnyLayout::RowMajor
    }

    open spec fn stores(size: Size) -> bool {
        true
    }

    open spec fn spec_stride(size: Size) -> int {
        size.width as int
    }

    fn to_1d<T: Int>(pos: Pos<T>, width: usize) -> (r: usize) {
        let x = pos.x.to_usize();
        let y = pos.y.to_usize();
        layout::RowMajor::pos_to_index(Pos::new(x, y), width)
    }

    fn to_2d<T: Int>(index: usize, width: usize) -> (r: Pos<T>) {
        Pos { x: T::from_usize(index % width), y: T::from_usize(index / width) }
    }

    fn positions<T: Int>(bounds: Rect<T>) -> (r: Vec<Pos<T>>) {
        layout::RowMajor::iter_pos(bounds)
    }

    fn as_any() -> (r: AnyLayout) {
        AnyLayout::RowMajor
    }

    fn can_store(size: Size) -> (r: bool) {
        true
    }

    fn stride(size: Size) -> (r: usize) {
        size.width
    }

    proof fn lemma_offsets(size: Size, p: (int, int), q: (int, int)) {
        let w = size.width as int;
        let h = size.height as int;
        lemma_product_order(p.1 + 1, h, w);
        lemma_product_order(p.1, p.1, w);
        lemma_product_order(0, p.1, w);
        assert(h * w == w * h) by (nonlinear_arith);
        lemma_quotient(p.1, p.0, w);
        lemma_quotient(q.1, q.0, w);
    }
}

/// Continuous memory with the first column at the lowest address.
pub struct ColMajor;

impl Layout for ColMajor {
    open spec fn index_req(p: (int, int), width: int) -> bool {
        col_major_index(p, width) <= usize::MAX
    }

    open spec fn index_of(p: (int, int), width: int) -> int {
        col_major_index(p, width)
    }

    open spec fn pos_req(index: int, width: int) -> bool {
        width > 0
    }

    open spec fn pos_of(index: int, width: int) -> (int, int) {
        col_major_pos(index, width)
    }

    open spec fn cells_req(b: Bounds) -> bool {
        true
    }

    open spec fn cells(b: Bounds) -> Seq<(int, int)> {
        col_major_positions(b)
    }

    open spec fn kind() -> AnyLayout {
        AnyLayout::ColMajor
    }

    open spec fn stores(size: Size) -> bool {
        true
    }

    open spec fn spec_stride(size: Size) -> int {
        size.height as int
    }

    fn to_1d<T: Int>(pos: Pos<T>, width: usize) -> (r: usize) {
        let x = pos.x.to_usize();
        let y = pos.y.to_usize();
        layout::ColumnMajor::pos_to_index(Pos::new(x, y), width)
    }

    fn to_2d<T: Int>(index: usize, width: usize) -> (r: Pos<T>) {
        Pos { x: T::from_usize(index / width), y: T::from_usize(index % width) }
    }

    fn positions<T: Int>(bounds: Rect<T>) -> (r: Vec<Pos<T>>) {
        layout::ColumnMajor::iter_pos(bounds)
    }

    fn as_any() -> (r: AnyLayout) {
        AnyLayout::ColMajor
    }

    fn can_store(size: Size) -> (r: bool) {
        true
    }

    fn stride(size: Size) -> (r: usize) {
        size.height
    }

    proof fn lemma_offsets(size: Size, p: (int, int), q: (int, int)) {
        let w = size.width as int;
        let h = size.height as int;
        lemma_product_order(p.0 + 1, w, h);
        lemma_product_order(p.0, p.0, h);
        lemma_product_order(0, p.0, h);
        lemma_quotient(p.0, p.1, h);
        lemma_quotient(q.0, q.1, h);
    }
}

/// A cache-friendly block layout, which stores data in continuous fixed-size (`W x H`) blocks.
///
/// For example, a `Block<2, 2>` layout that stores two elements would look like this:
///
/// ```text
/// 00, 01, 04, 05
/// 02, 03, 06, 07
/// ```
pub struct Block<const W: usize, const H: usize>;

impl<const W: usize, const H: usize> Block<W, H> {
    /// Returns the blocks of the size `W x H` within the given rectangle, row
    /// of blocks by row of blocks.
    ///
    /// Blocks that would be partially outside the rectangle are not returned.
    pub fn blocks<T: Int>(rect: Rect<T>) -> (r: Vec<Rect<T>>)
        requires
            W > 0,
            H > 0,
            rect.sized(),
        ensures
            rect_views(r@) == row_major_blocks(rect@, W as int, H as int),
    {
        layout::RowMajor::iter_rect(rect, Size { width: W, height: H })
    }
}

impl<const W: usize, const H: usize> Layout for Block<W, H> {
    open spec fn index_req(p: (int, int), width: int) -> bool {
        W > 0 && H > 0 && layout::Block::<W, H>::index_req(p, width)
    }

    open spec fn index_of(p: (int, int), width: int) -> int {
        block_index::<layout::RowMajor, layout::RowMajor>(p, width, W as int, H as int)
    }

    open spec fn pos_req(index: int, width: int) -> bool {
        W > 0 && H > 0 && layout::Block::<W, H>::pos_req(index, width)
    }

    open spec fn pos_of(index: int, width: int) -> (int, int) {
        block_pos::<layout::RowMajor, layout::RowMajor>(index, width, W as int, H as int)
    }

    open spec fn cells_req(b: Bounds) -> bool {
        W > 0 && H > 0
    }

    open spec fn cells(b: Bounds) -> Seq<(int, int)> {
        layout::Block::<W, H>::positions(b)
    }

    open spec fn kind() -> AnyLayout {
        AnyLayout::Block { width: W, height: H }
    }

    open spec fn stores(size: Size) -> bool {
        W > 0 && H > 0 && size.width % W == 0 && size.height % H == 0
    }

    open spec fn spec_stride(size: Size) -> int {
        size.width as int
    }

    fn to_1d<T: Int>(pos: Pos<T>, width: usize) -> (r: usize) {
        let x = pos.x.to_usize();
        let y = pos.y.to_usize();
        layout::Block::<W, H>::pos_to_index(Pos::new(x, y), width)
    }

    fn to_2d<T: Int>(index: usize, width: usize) -> (r: Pos<T>) {
        let pos = layout::Block::<W, H>::index_to_pos(index, width);
        Pos { x: T::from_usize(pos.x), y: T::from_usize(pos.y) }
    }

    fn positions<T: Int>(bounds: Rect<T>) -> (r: Vec<Pos<T>>) {
        layout::Block::<W, H>::iter_pos(bounds)
    }

    fn as_any() -> (r: AnyLayout) {
        AnyLayout::Block { width: W, height: H }
    }

    fn can_store(size: Size) -> (r: bool) {
        W > 0 && H > 0 && size.width % W == 0 && size.height % H == 0
    }

    fn stride(size: Size) -> (r: usize) {
        size.width
    }

    proof fn lemma_offsets(size: Size, p: (int, int), q: (int, int)) {
        Self::lemma_offset(size, p);
        Self::lemma_offset(size, q);
        layout::Block::<W, H>::lemma_inverse(p, size.width as int);
        layout::Block::<W, H>::lemma_inverse(q, size.width as int);
    }
}

impl<const W: usize, const H: usize> Block<W, H> {
    /// A position of a grid that the layout can store has an index below
    /// the number of the grid's cells, and the layout can be inverted for it.
    pub proof fn lemma_offset(size: Size, p: (int, int))
        requires
            W > 0,
            H > 0,
            size.width % W == 0,
            size.height % H == 0,
            size.spec_area() <= usize::MAX,
            0 <= p.0 < size.width,
            0 <= p.1 < size.height,
        ensures
            layout::Block::<W, H>::index_req(p, size.width as int),
            layout::Block::<W, H>::invertible(p, size.width as int),
            0 <= block_index::<layout::RowMajor, layout::RowMajor>(
                p,
                size.width as int,
                W as int,
                H as int,
            ) < size.spec_area(),
    {
        let w = W as int;
        let h = H as int;
        let n = size.width as int / w;
        let m = size.height as int / h;
        let at = (p.0 / w, p.1 / h);
        let cell = (p.0 % w, p.1 % h);
        lemma_floor(size.width as int, w);
        lemma_floor(size.height as int, h);
        lemma_floor(p.0, w);
        lemma_floor(p.1, h);
        // the tile lies within the tiles of the grid
        if at.0 >= n {
            lemma_product_order(n, at.0, w);
        }
        if at.1 >= m {
            lemma_product_order(m, at.1, h);
        }
        // the offset of the cell within its tile
        let c = cell.1 * w + cell.0;
        lemma_product_order(cell.1 + 1, h, w);
        lemma_product_order(cell.1, cell.1, w);
        lemma_product_order(0, cell.1, w);
        assert(h * w == w * h) by (nonlinear_arith);
        // the number of the tile
        let t = at.1 * n + at.0;
        lemma_product_order(at.1 + 1, m, n);
        lemma_product_order(at.1, at.1, n);
        lemma_product_order(0, at.1, n);
        lemma_product_order(t + 1, m * n, w * h);
        lemma_product_order(t, t, w * h);
        lemma_product_order(0, t, w * h);
        lemma_product_order(1, n, w);
        lemma_product_order(1, m, h);
        assert((m * n) * (w * h) == (n * w) * (m * h)) by (nonlinear_arith);
        assert(w * h <= (n * w) * (m * h) && m * n <= (n * w) * (m * h)) by (nonlinear_arith)
            requires
                1 <= n,
                1 <= m,
                0 < w,
                0 < h,
        ;
        assert(size.spec_area() == (n * w) * (m * h));
        assert(layout::RowMajor::index_of(at, n) == t);
        assert(layout::RowMajor::index_of(cell, w) == c);
        assert(block_index::<layout::RowMajor, layout::RowMajor>(p, size.width as int, w, h) == t
            * (w * h) + c);
    }
}

} // verus!

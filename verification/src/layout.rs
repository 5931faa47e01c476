//! Maps 2-dimensional positions and provides traversal orders.
//!
//! Defines the [`Traversal`] trait for visiting the positions and the tiles of a
//! rectangle in the order of a 2D layout, with 3 built-in implementations:
//!
//! - [`RowMajor`] for row-major order
//! - [`ColumnMajor`] for column-major order
//! - [`Block`] for block-based traversal (where the inner blocks can themselves have a layout)
//!
//! In addition, the [`Linear`] trait maps positions to offsets into linear data.
use core::ops::Range;
use vstd::prelude::*;

use crate::integer::Int;
use crate::pos::Pos;
use crate::rect::{Bounds, Rect};
use crate::size::Size;

pub mod block;
pub mod col_major;
pub mod row_major;

pub use block::Block;
pub use col_major::ColumnMajor;
pub use row_major::RowMajor;

verus! {

/// The cells that a sequence of positions stands for.
pub open spec fn pos_views<T: Int>(s: Seq<Pos<T>>) -> Seq<(int, int)> {
    Seq::new(s.len(), |i: int| s[i]@)
}

/// The regions that a sequence of rectangles stands for.
pub open spec fn rect_views<T: Int>(s: Seq<Rect<T>>) -> Seq<Bounds> {
    Seq::new(s.len(), |i: int| s[i]@)
}

/// The tile of `w` by `h` cells in column `col` and row `row` of the tiling
/// that starts at the top-left corner of `b`.
pub open spec fn tile(b: Bounds, w: int, h: int, col: int, row: int) -> Bounds {
    Bounds {
        left: b.left + col * w,
        top: b.top + row * h,
        right: b.left + col * w + w,
        bottom: b.top + row * h + h,
    }
}

/// Whether every region of `s` is `w` wide, `h` high and lies within `b`.
pub open spec fn tiles_within(s: Seq<Bounds>, b: Bounds, w: int, h: int) -> bool {
    forall|i: int|
        0 <= i < s.len() ==> (#[trigger] s[i]).width() == w && s[i].height() == h
            && b.contains_bounds(s[i])
}

/// Whether no cell lies in two regions of `s`.
pub open spec fn tiles_apart(s: Seq<Bounds>) -> bool {
    forall|i: int, j: int, p: (int, int)|
        0 <= i < j < s.len() && (#[trigger] s[i].contains(p)) ==> !(#[trigger] s[j].contains(p))
}

/// Whether every cell of `b` lies in a region of `s`.
pub open spec fn tiles_cover(s: Seq<Bounds>, b: Bounds) -> bool {
    forall|p: (int, int)| #[trigger]
        b.contains(p) ==> exists|i: int| 0 <= i < s.len() && (#[trigger] s[i].contains(p))
}

/// Whether `s` holds cells of `b` only, and none of them twice.
pub open spec fn cells_within(s: Seq<(int, int)>, b: Bounds) -> bool {
    &&& s.no_duplicates()
    &&& forall|i: int| 0 <= i < s.len() ==> b.contains(#[trigger] s[i])
}

/// Whether `s` holds every cell of `b` exactly once, and nothing else.
pub open spec fn enumerates(s: Seq<(int, int)>, b: Bounds) -> bool {
    &&& s.len() == b.area()
    &&& cells_within(s, b)
    &&& forall|p: (int, int)| #[trigger] b.contains(p) ==> s.contains(p)
}

/// `n / d` is the greatest number of times that `d` fits into `n`.
pub proof fn lemma_floor(n: int, d: int)
    requires
        0 <= n,
        0 < d,
    ensures
        0 <= n / d,
        (n / d) * d <= n < (n / d) * d + d,
        n - (n / d) * d == n % d,
{
    vstd::arithmetic::div_mod::lemma_fundamental_div_mod(n, d);
    vstd::arithmetic::div_mod::lemma_mod_pos_bound(n, d);
    vstd::arithmetic::div_mod::lemma_div_pos_is_pos(n, d);
    assert((n / d) * d == d * (n / d)) by (nonlinear_arith);
}

/// A number that is `q` times `d` and a rest below `d` has the quotient `q`
/// and that rest.
pub proof fn lemma_quotient(q: int, r: int, d: int)
    requires
        0 <= r < d,
    ensures
        (q * d + r) / d == q,
        (q * d + r) % d == r,
{
    vstd::arithmetic::div_mod::lemma_fundamental_div_mod_converse(q * d + r, d, q, r);
}

/// Taking `q` times `d` away from `n` takes `q` away from the number of times
/// that `d` fits into `n`.
pub proof fn lemma_floor_rest(n: int, d: int, q: int)
    requires
        0 < d,
        0 <= q,
        q * d <= n,
    ensures
        (n - q * d) / d == n / d - q,
{
    lemma_floor(n, d);
    assert((n / d - q) * d == (n / d) * d - q * d) by (nonlinear_arith);
    lemma_quotient(n / d - q, n % d, d);
}

/// Products of numbers that are not negative keep the order of their factors.
pub proof fn lemma_product_order(a: int, b: int, d: int)
    requires
        a <= b,
        0 <= d,
    ensures
        a * d <= b * d,
        (a + 1) * d == a * d + d,
{
    assert(a * d <= b * d && (a + 1) * d == a * d + d) by (nonlinear_arith)
        requires
            a <= b,
            0 <= d,
    ;
}

/// The number `i` of a tile among `cols * rows` tiles names a column below
/// `cols` and a row below `rows`.
pub proof fn lemma_tile_number(cols: int, rows: int, i: int)
    requires
        0 <= cols,
        0 <= rows,
        0 <= i < cols * rows,
    ensures
        0 < cols,
        0 <= i % cols < cols,
        0 <= i / cols < rows,
        i == (i / cols) * cols + i % cols,
{
    assert(cols != 0) by (nonlinear_arith)
        requires
            0 < cols * rows,
    ;
    lemma_floor(i, cols);
    if i / cols >= rows {
        lemma_product_order(rows, i / cols, cols);
        assert(rows * cols == cols * rows) by (nonlinear_arith);
    }
}

/// Defines iterating orders for traversing a 2D layout.
pub trait Traversal {
    /// Whether the layout's own parameters can be used: a tile has cells.
    spec fn well_formed() -> bool;

    /// The cells of `b` in the order of the layout.
    spec fn positions(b: Bounds) -> Seq<(int, int)>;

    /// The tiles of `w` by `h` cells that lie within `b`, in the order of the
    /// layout. A tile that would reach over the right or the bottom edge of
    /// `b` is left out.
    spec fn blocks(b: Bounds, w: int, h: int) -> Seq<Bounds>;

    /// Whether the layout visits every cell of a region that is `width` cells
    /// wide and `height` cells high.
    spec fn fills(width: int, height: int) -> bool;

    /// Whether the tiles of `w` by `h` cells leave no cell out of a region
    /// that is `width` cells wide and `height` cells high.
    spec fn fills_with(width: int, height: int, w: int, h: int) -> bool;

    /// Returns the positions of the rectangle.
    ///
    /// The positions are returned in the order defined by the traversal.
    fn iter_pos<T: Int>(rect: Rect<T>) -> (r: Vec<Pos<T>>)
        requires
            Self::well_formed(),
            rect.sized(),
        ensures
            pos_views(r@) == Self::positions(rect@),
    ;

    /// Returns the blocks (smaller, equally-sized rectangles) of the rectangle.
    ///
    /// The blocks are returned in the order defined by the traversal.
    ///
    /// Blocks that would be partially outside the rectangle are not returned.
    fn iter_rect<T: Int>(rect: Rect<T>, size: Size) -> (r: Vec<Rect<T>>)
        requires
            Self::well_formed(),
            rect.sized(),
            size.width > 0,
            size.height > 0,
        ensures
            rect_views(r@) == Self::blocks(rect@, size.width as int, size.height as int),
    ;

    /// The positions are cells of the region, and none comes twice. Where
    /// the layout fills a region of these extents, every cell of the region
    /// comes exactly once.
    proof fn lemma_positions(b: Bounds)
        requires
            Self::well_formed(),
            b.wf(),
        ensures
            cells_within(Self::positions(b), b),
            Self::fills(b.width(), b.height()) ==> enumerates(Self::positions(b), b),
    ;

    /// Every tile has the extents asked for and lies within the region, and
    /// no two tiles share a cell. Where the tiles fill a region of these
    /// extents, every cell of the region lies in a tile.
    proof fn lemma_blocks(b: Bounds, w: int, h: int)
        requires
            Self::well_formed(),
            b.wf(),
            w > 0,
            h > 0,
        ensures
            tiles_within(Self::blocks(b, w, h), b, w, h),
            tiles_apart(Self::blocks(b, w, h)),
            Self::fills_with(b.width(), b.height(), w, h) ==> tiles_cover(Self::blocks(b, w, h), b)
                && Self::blocks(b, w, h).len() * (w * h) == b.area(),
    ;
}

/// Whether the axis with the number `axis` can be cut out of linear data of
/// `len` elements: where the layout has that axis, the data holds a whole
/// number of grids of `size`, and the axis ends within the data.
pub open spec fn axis_in_data(len: int, size: Size, axes: int, axis_len: int, axis: int) -> bool {
    axis < axes ==> {
        &&& 0 < size.spec_area() <= usize::MAX
        &&& len % size.spec_area() == 0
        &&& (axis + 1) * axis_len <= len
    }
}

/// Defines mapping a 2D layout to a linear access patterns.
pub trait Linear: Traversal {
    /// Whether the offset of `p` can be computed for rows of `width` cells.
    spec fn index_req(p: (int, int), width: int) -> bool;

    /// The offset of `p` into linear data with rows of `width` cells.
    spec fn index_of(p: (int, int), width: int) -> int;

    /// Whether the position of the offset `index` can be computed for rows of
    /// `width` cells.
    spec fn pos_req(index: int, width: int) -> bool;

    /// The position of the offset `index` into linear data with rows of
    /// `width` cells.
    spec fn pos_of(index: int, width: int) -> (int, int);

    /// Whether `pos_of` takes the offset of `p` back to `p`.
    spec fn invertible(p: (int, int), width: int) -> bool;

    /// The number of axes of a grid of `size` that lie one after the other in
    /// linear data.
    spec fn axes(size: Size) -> int;

    /// The number of cells of one such axis.
    spec fn axis_len(size: Size) -> int;

    /// Whether the offsets at which `b` starts and ends can be computed.
    spec fn range_req(size: Size, b: Bounds) -> bool;

    /// The offsets at which `b` starts and ends in the linear data of a grid
    /// of `size`, where `b` is aligned to the layout.
    spec fn range_of(size: Size, b: Bounds) -> Option<(int, int)>;

    /// Translates a 2D position to a linear index for the current layout.
    #[must_use]
    fn pos_to_index(pos: Pos<usize>, width: usize) -> (r: usize)
        requires
            Self::well_formed(),
            Self::index_req(pos@, width as int),
        ensures
            r == Self::index_of(pos@, width as int),
    ;

    /// Translates a linear index to a 2D position for the current layout.
    #[must_use]
    fn index_to_pos(index: usize, width: usize) -> (r: Pos<usize>)
        requires
            Self::well_formed(),
            Self::pos_req(index as int, width as int),
        ensures
            r@ == Self::pos_of(index as int, width as int),
    ;

    /// Returns the length of the linear data for the given size and axis.
    ///
    /// This is the least value of `axis` for which `slice_aligned` returns nothing.
    #[must_use]
    fn len_aligned(size: Size) -> (r: usize)
        ensures
            r == Self::axes(size),
    ;

    /// Returns a range of indices for the rectangle defined by the layout.
    ///
    /// The range is inclusive of the start and exclusive of the end.
    ///
    /// If the rectangle is not aligned to the current data, the range will be `None`.
    #[must_use]
    fn rect_to_range(size: Size, rect: Rect<usize>) -> (r: Option<Range<usize>>)
        requires
            Self::well_formed(),
            rect@.wf(),
            Self::range_req(size, rect@),
        ensures
            match Self::range_of(size, rect@) {
                Some(range) => r.is_some() && r.unwrap().start == range.0 && r.unwrap().end
                    == range.1,
                None => r.is_none(),
            },
    ;

    /// Returns a slice of the given slice for the rectangle defined by the layout.
    ///
    /// If the rectangle is not aligned to the current data, or ends behind
    /// it, the slice will be `None`.
    fn slice_rect_aligned<'a, E>(slice: &'a [E], size: Size, rect: Rect<usize>) -> (r: Option<
        &'a [E],
    >)
        requires
            Self::well_formed(),
            rect@.wf(),
            Self::range_req(size, rect@),
        ensures
            match Self::range_of(size, rect@) {
                Some(range) => if 0 <= range.0 <= range.1 <= slice@.len() {
                    r.is_some() && r.unwrap()@ == slice@.subrange(range.0, range.1)
                } else {
                    r.is_none()
                },
                None => r.is_none(),
            },
    ;

    /// Returns a mutable slice of the given slice for the rectangle defined by the layout.
    ///
    /// If the rectangle is not aligned to the current data, or ends behind
    /// it, the slice will be `None`.
    fn slice_rect_aligned_mut<'a, E>(slice: &'a mut [E], size: Size, rect: Rect<usize>) -> (r:
        Option<&'a mut [E]>)
        requires
            Self::well_formed(),
            rect@.wf(),
            Self::range_req(size, rect@),
        ensures
            match Self::range_of(size, rect@) {
                Some(range) => if 0 <= range.0 <= range.1 <= old(slice)@.len() {
                    &&& r.is_some()
                    &&& r.unwrap()@ == old(slice)@.subrange(range.0, range.1)
                    &&& final(slice)@ == old(slice)@.subrange(0, range.0) + final(r.unwrap())@
                        + old(slice)@.subrange(range.1, old(slice)@.len() as int)
                } else {
                    r.is_none() && final(slice)@ == old(slice)@
                },
                None => r.is_none() && final(slice)@ == old(slice)@,
            },
    ;

    /// Returns a slice of the given slice for the axis defined by the layout.
    ///
    /// If the axis is not present in the data, the slice will be empty.
    ///
    /// `slice.len()` must be a multiple of `size.width * size.height`.
    #[must_use]
    fn slice_aligned<'a, E>(slice: &'a [E], size: Size, axis: usize) -> (r: &'a [E])
        requires
            axis_in_data(
                slice@.len() as int,
                size,
                Self::axes(size),
                Self::axis_len(size),
                axis as int,
            ),
        ensures
            axis >= Self::axes(size) ==> r@ == Seq::<E>::empty(),
            axis < Self::axes(size) ==> r@ == slice@.subrange(
                axis * Self::axis_len(size),
                (axis + 1) * Self::axis_len(size),
            ),
    ;

    /// Returns a mutable slice of the given slice for the axis defined by the layout.
    ///
    /// If the axis is not present in the data, the slice will be empty.
    ///
    /// `slice.len()` must be a multiple of `size.width * size.height`.
    #[must_use]
    fn slice_aligned_mut<'a, E>(slice: &'a mut [E], size: Size, axis: usize) -> (r: &'a mut [E])
        requires
            axis_in_data(
                old(slice)@.len() as int,
                size,
                Self::axes(size),
                Self::axis_len(size),
                axis as int,
            ),
        ensures
            axis >= Self::axes(size) ==> r@ == Seq::<E>::empty() && final(r)@ == Seq::<E>::empty()
                && final(slice)@ == old(slice)@,
            axis < Self::axes(size) ==> {
                let start = axis * Self::axis_len(size);
                let end = (axis + 1) * Self::axis_len(size);
                &&& r@ == old(slice)@.subrange(start, end)
                &&& final(slice)@ == old(slice)@.subrange(0, start) + final(r)@ + old(
                    slice,
                )@.subrange(end, old(slice)@.len() as int)
            },
    ;

    /// The position of the offset of a position is that position, where the
    /// layout can be inverted for it.
    proof fn lemma_inverse(p: (int, int), width: int)
        requires
            Self::well_formed(),
            0 <= p.0,
            0 <= p.1,
            Self::invertible(p, width),
        ensures
            Self::pos_of(Self::index_of(p, width), width) == p,
    ;
}

/// Cuts the elements from `start` up to `end` out of `slice`.
pub fn cut<'a, E>(slice: &'a [E], start: usize, end: usize) -> (r: &'a [E])
    requires
        start <= end <= slice@.len(),
    ensures
        r@ == slice@.subrange(start as int, end as int),
{
    vstd::slice::slice_subrange(slice, start, end)
}

/// Cuts the elements from `start` up to `end` out of `slice`, to be changed
/// in place.
pub fn cut_mut<'a, E>(slice: &'a mut [E], start: usize, end: usize) -> (r: &'a mut [E])
    requires
        start <= end <= old(slice)@.len(),
    ensures
        r@ == old(slice)@.subrange(start as int, end as int),
        final(slice)@ == old(slice)@.subrange(0, start as int) + final(r)@ + old(slice)@.subrange(
            end as int,
            old(slice)@.len() as int,
        ),
{
    let (head, _tail) = slice.split_at_mut(end);
    let (_skipped, part) = head.split_at_mut(start);
    part
}

} // verus!

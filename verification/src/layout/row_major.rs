//! Row-major order.
use core::ops::Range;
use vstd::prelude::*;

use crate::integer::Int;
use crate::layout::{
    cut, cut_mut, lemma_floor, lemma_floor_rest, lemma_product_order, lemma_quotient,
    lemma_tile_number, pos_views, rect_views, tile, Linear, Traversal,
};
use crate::pos::Pos;
use crate::rect::{Bounds, Rect};
use crate::size::Size;

verus! {

/// The cell with the number `i` of `b` in row-major order.
pub open spec fn row_major_cell(b: Bounds, i: int) -> (int, int) {
    (b.left + i % b.width(), b.top + i / b.width())
}

/// The cells of `b`, row by row from the top, each row from the left.
pub open spec fn row_major_positions(b: Bounds) -> Seq<(int, int)> {
    Seq::new(b.area() as nat, |i: int| row_major_cell(b, i))
}

/// The tile with the number `i` of `b` in row-major order.
pub open spec fn row_major_tile(b: Bounds, w: int, h: int, i: int) -> Bounds {
    tile(b, w, h, i % (b.width() / w), i / (b.width() / w))
}

/// The whole tiles of `w` by `h` cells of `b`, row of tiles by row of tiles
/// from the top, each row from the left.
pub open spec fn row_major_blocks(b: Bounds, w: int, h: int) -> Seq<Bounds> {
    Seq::new(((b.width() / w) * (b.height() / h)) as nat, |i: int| row_major_tile(b, w, h, i))
}

/// The offset of the cell `p` where the rows are `width` cells long and lie
/// one after the other.
pub open spec fn row_major_index(p: (int, int), width: int) -> int {
    p.1 * width + p.0
}

/// The cell at the offset `index` where the rows are `width` cells long and
/// lie one after the other.
pub open spec fn row_major_pos(index: int, width: int) -> (int, int) {
    (index % width, index / width)
}

/// Whether the cells of `b` lie one after the other in a grid of `size`: `b`
/// is one row high, or as wide as the grid.
pub open spec fn row_major_aligned(size: Size, b: Bounds) -> bool {
    b.height() == 1 || b.width() == size.width
}

/// The offsets at which `b` starts and ends in a grid of `size`, where its
/// cells lie one after the other.
pub open spec fn row_major_range(size: Size, b: Bounds) -> Option<(int, int)> {
    if row_major_aligned(size, b) {
        Some((b.top * size.width + b.left, b.top * size.width + b.left + b.area()))
    } else {
        None
    }
}

/// Left-to-right, top-to-bottom traversal order for 2D layouts.
///
/// ```txt
/// 0 1 2 3
/// 4 5 6 7
/// 8 9 A B
/// ```
pub struct RowMajor;

/// Iterator over positions in row-major order.
pub struct IterPosRowMajor<T: Int> {
    current: Pos<T>,
    bounds: Rect<T>,
}

impl<T: Int> IterPosRowMajor<T> {
    /// The region whose positions are given.
    pub closed spec fn bounds(&self) -> Bounds {
        self.bounds@
    }

    /// The number of positions that were given.
    pub closed spec fn given(&self) -> int {
        (self.current@.1 - self.bounds@.top) * self.bounds@.width() + (self.current@.0
            - self.bounds@.left)
    }

    /// The current position lies in the region, or all positions were given
    /// and it rests at the bottom-left corner.
    pub closed spec fn wf(&self) -> bool {
        let b = self.bounds@;
        let c = self.current@;
        &&& self.bounds.sized()
        &&& if c.1 == b.bottom {
            c.0 == b.left
        } else {
            b.contains(c)
        }
    }

    /// The positions that are still to come, in their order.
    pub open spec fn remaining(&self) -> Seq<(int, int)> {
        row_major_positions(self.bounds()).skip(self.given())
    }

    /// Starts at the first position of `rect`.
    pub fn new(rect: Rect<T>) -> (r: Self)
        requires
            rect.sized(),
        ensures
            r.wf(),
            r.bounds() == rect@,
            r.remaining() == row_major_positions(rect@),
    {
        let current = if rect.is_empty() {
            rect.bottom_left()
        } else {
            rect.top_left()
        };
        let r = IterPosRowMajor { current, bounds: rect };
        proof {
            let b = rect@;
            if b.is_empty() {
                assert(b.height() * b.width() == b.area()) by (nonlinear_arith);
                assert(b.area() == 0) by (nonlinear_arith)
                    requires
                        b.width() == 0 || b.height() == 0,
                        b.area() == b.width() * b.height(),
                ;
            }
            assert(r.given() == 0) by (nonlinear_arith)
                requires
                    r.given() == (r.current@.1 - b.top) * b.width() + (r.current@.0 - b.left),
                    r.current@.0 == b.left,
                    r.current@.1 == b.top || (r.current@.1 == b.bottom && (b.width() == 0
                        || b.bottom == b.top)),
            ;
            assert(r.remaining() =~= row_major_positions(rect@));
        }
        r
    }

    /// Gives the next position, or `None` once all were given.
    pub fn next(&mut self) -> (r: Option<Pos<T>>)
        requires
            old(self).wf(),
        ensures
            final(self).wf(),
            final(self).bounds() == old(self).bounds(),
            old(self).remaining().len() == 0 ==> r.is_none() && final(self).remaining() == old(
                self,
            ).remaining(),
            old(self).remaining().len() > 0 ==> r.is_some() && r.unwrap()@ == old(
                self,
            ).remaining()[0] && final(self).remaining() == old(self).remaining().skip(1),
    {
        let ghost b = self.bounds@;
        let ghost c = self.current@;
        let ghost k = self.given();
        let right = self.bounds.right();
        let bottom = self.bounds.bottom();
        proof {
            T::lemma_limits();
            T::lemma_order(self.current.y, bottom);
            lemma_product_order(c.1 - b.top, b.height(), b.width());
            assert(b.height() * b.width() == b.area()) by (nonlinear_arith);
        }
        if self.current.y >= bottom {
            return None;
        }
        let pos = self.current;
        proof {
            lemma_product_order(c.1 - b.top, b.height() - 1, b.width());
            lemma_product_order(b.height() - 1, b.height() - 1, b.width());
            lemma_product_order(c.1 - b.top, c.1 - b.top, b.width());
            lemma_quotient(c.1 - b.top, c.0 - b.left, b.width());
            T::lemma_add(pos.x, T::ONE);
            T::lemma_add(pos.y, T::ONE);
            T::lemma_value(right, bottom);
            T::lemma_value(bottom, right);
            T::lemma_value(pos.x, pos.y);
            T::lemma_value(pos.y, pos.x);
        }
        self.current.x = pos.x + T::ONE;
        proof {
            T::lemma_order(self.current.x, right);
        }
        if self.current.x >= right {
            self.current.x = self.bounds.left();
            self.current.y = pos.y + T::ONE;
        }
        proof {
            assert(self.given() == k + 1);
            assert(self.remaining() =~= old(self).remaining().skip(1));
        }
        Some(pos)
    }

    /// Returns the number of positions that are still to come.
    pub fn len(&self) -> (r: usize)
        requires
            self.wf(),
            self.bounds().area() <= usize::MAX,
        ensures
            r == self.remaining().len(),
    {
        let ghost b = self.bounds@;
        let ghost c = self.current@;
        let right = self.bounds.right();
        let bottom = self.bounds.bottom();
        proof {
            T::lemma_limits();
            T::lemma_order(self.current.y, bottom);
            T::lemma_sub(bottom, self.current.y);
            T::lemma_sub(right, self.current.x);
            lemma_product_order(c.1 - b.top, b.height(), b.width());
            assert(b.height() * b.width() == b.area()) by (nonlinear_arith);
        }
        if self.current.y >= bottom {
            return 0;
        }
        let rows = (bottom - self.current.y).to_usize() - 1;
        let rest = (right - self.current.x).to_usize();
        let width = self.bounds.width();
        proof {
            assert(rows * width + rest == b.area() - self.given()) by (nonlinear_arith)
                requires
                    rows == b.bottom - c.1 - 1,
                    rest == b.right - c.0,
                    width == b.right - b.left,
                    b.area() == (b.right - b.left) * (b.bottom - b.top),
                    self.given() == (c.1 - b.top) * (b.right - b.left) + (c.0 - b.left),
            ;
            assert(0 <= rows * width) by (nonlinear_arith)
                requires
                    0 <= rows,
                    0 <= width,
            ;
        }
        rows * width + rest
    }
}

/// Iterator over blocks in row-major order.
pub struct IterBlockRowMajor<T: Int> {
    current: Pos<T>,
    bounds: Rect<T>,
    size: Size,
    col: Ghost<int>,
    row: Ghost<int>,
}

impl<T: Int> IterBlockRowMajor<T> {
    /// The region whose blocks are given.
    pub closed spec fn bounds(&self) -> Bounds {
        self.bounds@
    }

    /// The size of a block.
    pub closed spec fn size(&self) -> Size {
        self.size
    }

    /// The number of blocks in a row of blocks.
    pub open spec fn cols(&self) -> int {
        self.bounds().width() / (self.size().width as int)
    }

    /// The number of rows of blocks.
    pub open spec fn rows(&self) -> int {
        self.bounds().height() / (self.size().height as int)
    }

    /// The number of blocks that were given.
    pub closed spec fn given(&self) -> int {
        self.row@ * self.cols() + self.col@
    }

    /// The current position is the top-left corner of the block to come, or
    /// all blocks were given and it rests at the left edge.
    pub closed spec fn wf(&self) -> bool {
        let b = self.bounds@;
        let c = self.current@;
        &&& self.bounds.sized()
        &&& self.size.width > 0
        &&& self.size.height > 0
        &&& c.0 == b.left + self.col@ * self.size.width
        &&& c.1 == b.top + self.row@ * self.size.height
        &&& 0 <= self.col@
        &&& 0 <= self.row@ <= self.rows()
        &&& if self.cols() == 0 || self.row@ == self.rows() {
            self.col@ == 0 && (self.cols() == 0 ==> self.row@ == 0)
        } else {
            self.col@ < self.cols()
        }
    }

    /// The blocks that are still to come, in their order.
    pub open spec fn remaining(&self) -> Seq<Bounds> {
        row_major_blocks(
            self.bounds(),
            self.size().width as int,
            self.size().height as int,
        ).skip(self.given())
    }

    /// Starts at the first block of `rect`.
    pub fn new(rect: Rect<T>, size: Size) -> (r: Self)
        requires
            rect.sized(),
            size.width > 0,
            size.height > 0,
        ensures
            r.wf(),
            r.bounds() == rect@,
            r.size() == size,
            r.remaining() == row_major_blocks(rect@, size.width as int, size.height as int),
    {
        let r = IterBlockRowMajor {
            current: rect.top_left(),
            bounds: rect,
            size,
            col: Ghost(0),
            row: Ghost(0),
        };
        proof {
            lemma_floor(rect@.width(), size.width as int);
            lemma_floor(rect@.height(), size.height as int);
            assert(0 * r.cols() + 0 == 0) by (nonlinear_arith);
            assert(r.remaining() =~= row_major_blocks(
                rect@,
                size.width as int,
                size.height as int,
            ));
        }
        r
    }

    /// Gives the next block, or `None` once all were given.
    pub fn next(&mut self) -> (r: Option<Rect<T>>)
        requires
            old(self).wf(),
        ensures
            final(self).wf(),
            final(self).bounds() == old(self).bounds(),
            final(self).size() == old(self).size(),
            old(self).remaining().len() == 0 ==> r.is_none() && final(self).remaining() == old(
                self,
            ).remaining(),
            old(self).remaining().len() > 0 ==> r.is_some() && r.unwrap()@ == old(
                self,
            ).remaining()[0] && final(self).remaining() == old(self).remaining().skip(1),
    {
        let ghost b = self.bounds@;
        let ghost c = self.current@;
        let ghost w = self.size.width as int;
        let ghost h = self.size.height as int;
        let ghost cols = self.cols();
        let ghost rows = self.rows();
        let ghost col = self.col@;
        let ghost row = self.row@;
        let ghost k = self.given();
        let right = self.bounds.right();
        let bottom = self.bounds.bottom();
        proof {
            T::lemma_limits();
            lemma_floor(b.width(), w);
            lemma_floor(b.height(), h);
            lemma_product_order(col, cols, w);
            lemma_product_order(row, rows, h);
            lemma_product_order(row, rows, cols);
            T::lemma_value(self.current.x, self.current.y);
            T::lemma_value(self.current.y, self.current.x);
            T::lemma_value(right, bottom);
            T::lemma_value(bottom, right);
            T::lemma_sub(right, self.current.x);
            T::lemma_sub(bottom, self.current.y);
            if cols != 0 && row != rows {
                lemma_product_order(col + 1, cols, w);
                lemma_product_order(col, col, w);
                lemma_product_order(row + 1, rows, h);
                lemma_product_order(row, row, h);
                lemma_product_order(row + 1, rows, cols);
                lemma_product_order(row, row, cols);
                lemma_quotient(row, col, cols);
            }
        }
        let free_x = (right - self.current.x).to_usize();
        let free_y = (bottom - self.current.y).to_usize();
        if free_x < self.size.width || free_y < self.size.height {
            return None;
        }
        let block = Rect::new(self.current, self.size);
        let width = T::from_usize(self.size.width);
        proof {
            T::lemma_add(self.current.x, width);
        }
        let x = self.current.x + width;
        proof {
            T::lemma_sub(right, x);
            if col + 1 < cols {
                lemma_product_order(col + 2, cols, w);
                lemma_product_order(col + 1, col + 1, w);
            }
        }
        if (right - x).to_usize() < self.size.width {
            let height = T::from_usize(self.size.height);
            proof {
                T::lemma_add(self.current.y, height);
            }
            self.current.x = self.bounds.left();
            self.current.y = self.current.y + height;
            self.col = Ghost(0);
            self.row = Ghost(row + 1);
        } else {
            self.current.x = x;
            self.col = Ghost(col + 1);
        }
        proof {
            assert(self.given() == k + 1);
            assert(self.remaining() =~= old(self).remaining().skip(1));
        }
        Some(block)
    }
}

impl<T: Int> IterBlockRowMajor<T> {
    /// Returns the number of blocks that are still to come.
    pub fn len(&self) -> (r: usize)
        requires
            self.wf(),
            self.bounds().area() <= usize::MAX,
        ensures
            r == self.remaining().len(),
    {
        let ghost b = self.bounds@;
        let ghost w = self.size.width as int;
        let ghost h = self.size.height as int;
        let ghost cols = self.cols();
        let ghost rows = self.rows();
        let ghost col = self.col@;
        let ghost row = self.row@;
        let right = self.bounds.right();
        let bottom = self.bounds.bottom();
        proof {
            T::lemma_limits();
            lemma_floor(b.width(), w);
            lemma_floor(b.height(), h);
            lemma_product_order(col, cols, w);
            lemma_product_order(row, rows, h);
            lemma_product_order(row, rows, cols);
            lemma_product_order(0, col, w);
            lemma_product_order(0, row, h);
            lemma_product_order(0, rows, cols);
            lemma_floor_rest(b.width(), w, col);
            lemma_floor_rest(b.height(), h, row);
            T::lemma_value(self.current.x, self.current.y);
            T::lemma_value(self.current.y, self.current.x);
            T::lemma_value(right, bottom);
            T::lemma_value(bottom, right);
            T::lemma_sub(right, self.current.x);
            T::lemma_sub(bottom, self.current.y);
        }
        let across = (right - self.current.x).to_usize() / self.size.width;
        let down = (bottom - self.current.y).to_usize() / self.size.height;
        proof {
            assert(rows * cols == cols * rows) by (nonlinear_arith);
            assert(cols == 0 ==> row * cols == 0 && cols * rows == 0) by (nonlinear_arith);
        }
        if across == 0 || down == 0 {
            return 0;
        }
        let per_row = self.bounds.width() / self.size.width;
        proof {
            assert((down - 1) * per_row + across == rows * cols - (row * cols + col))
                by (nonlinear_arith)
                requires
                    down == rows - row,
                    across == cols - col,
                    per_row == cols,
            ;
            assert(0 <= (down - 1) * per_row) by (nonlinear_arith)
                requires
                    1 <= down,
                    0 <= per_row,
            ;
            assert((down - 1) * per_row <= b.height() * per_row) by (nonlinear_arith)
                requires
                    down <= b.height(),
                    0 <= per_row,
            ;
            assert(b.height() * per_row <= b.area()) by (nonlinear_arith)
                requires
                    0 <= b.height(),
                    per_row <= b.width(),
                    b.area() == b.width() * b.height(),
            ;
            assert((down - 1) * per_row + across <= b.height() * per_row) by (nonlinear_arith)
                requires
                    1 <= down <= b.height(),
                    0 <= across <= per_row,
            ;
        }
        (down - 1) * per_row + across
    }
}

impl RowMajor {
    /// Returns the range of indices of the row with the number `axis`.
    ///
    /// `slice.len()` must be a multiple of `size.width * size.height`.
    pub fn axis_to_range<E>(slice: &[E], size: Size, axis: usize) -> (r: Range<usize>)
        requires
            0 < size.spec_area() <= usize::MAX,
            slice@.len() % (size.spec_area() as nat) == 0,
            (axis + 1) * size.width <= usize::MAX,
        ensures
            r.start == axis * size.width,
            r.end == (axis + 1) * size.width,
    {
        proof {
            lemma_product_order(axis as int, axis as int, size.width as int);
        }
        let start = axis * size.width;
        let end = start + size.width;
        start..end
    }
}

impl Linear for RowMajor {
    open spec fn index_req(p: (int, int), width: int) -> bool {
        row_major_index(p, width) <= usize::MAX
    }

    open spec fn index_of(p: (int, int), width: int) -> int {
        row_major_index(p, width)
    }

    open spec fn pos_req(index: int, width: int) -> bool {
        width > 0
    }

    open spec fn pos_of(index: int, width: int) -> (int, int) {
        row_major_pos(index, width)
    }

    open spec fn invertible(p: (int, int), width: int) -> bool {
        p.0 < width
    }

    open spec fn axes(size: Size) -> int {
        size.height as int
    }

    open spec fn axis_len(size: Size) -> int {
        size.width as int
    }

    open spec fn range_req(size: Size, b: Bounds) -> bool {
        row_major_aligned(size, b) ==> b.top * size.width + b.left + b.area() <= usize::MAX
    }

    open spec fn range_of(size: Size, b: Bounds) -> Option<(int, int)> {
        row_major_range(size, b)
    }

    fn pos_to_index(pos: Pos<usize>, width: usize) -> (r: usize) {
        proof {
            lemma_product_order(0, pos.y as int, width as int);
        }
        pos.y * width + pos.x
    }

    fn index_to_pos(index: usize, width: usize) -> (r: Pos<usize>) {
        let x = index % width;
        let y = index / width;
        Pos::new(x, y)
    }

    fn len_aligned(size: Size) -> (r: usize) {
        size.height
    }

    fn rect_to_range(size: Size, rect: Rect<usize>) -> (r: Option<Range<usize>>) {
        proof {
            rect.lemma_view(rect);
        }
        // Must be either:
        // - Elements entirely within a single row (height = 1)
        // - Elements spanning multiple rows but full-width
        if rect.height() != 1 && rect.width() != size.width {
            return None;
        }
        let top_left = rect.top_left();
        proof {
            lemma_product_order(0, top_left.y as int, size.width as int);
            lemma_product_order(0, rect@.width(), rect@.height());
        }
        let start = top_left.y * size.width + top_left.x;
        let end = start + rect.width() * rect.height();
        Some(start..end)
    }

    fn slice_rect_aligned<'a, E>(slice: &'a [E], size: Size, rect: Rect<usize>) -> (r: Option<
        &'a [E],
    >) {
        proof {
            rect.lemma_view(rect);
            lemma_product_order(0, rect@.top, size.width as int);
            lemma_product_order(0, rect@.width(), rect@.height());
        }
        let range = match Self::rect_to_range(size, rect) {
            Some(range) => range,
            None => { return None; },
        };
        if range.end > slice.len() {
            return None;
        }
        Some(cut(slice, range.start, range.end))
    }

    fn slice_rect_aligned_mut<'a, E>(slice: &'a mut [E], size: Size, rect: Rect<usize>) -> (r:
        Option<&'a mut [E]>) {
        proof {
            rect.lemma_view(rect);
            lemma_product_order(0, rect@.top, size.width as int);
            lemma_product_order(0, rect@.width(), rect@.height());
        }
        let range = match Self::rect_to_range(size, rect) {
            Some(range) => range,
            None => { return None; },
        };
        if range.end > slice.len() {
            return None;
        }
        Some(cut_mut(slice, range.start, range.end))
    }

    fn slice_aligned<'a, E>(slice: &'a [E], size: Size, axis: usize) -> (r: &'a [E]) {
        if axis >= Self::len_aligned(size) {
            return cut(slice, 0, 0);
        }
        proof {
            lemma_product_order(axis as int, axis as int, size.width as int);
        }
        proof {
            vstd::slice::axiom_spec_len(slice);
        }
        let range = Self::axis_to_range(slice, size, axis);
        cut(slice, range.start, range.end)
    }

    fn slice_aligned_mut<'a, E>(slice: &'a mut [E], size: Size, axis: usize) -> (r: &'a mut [E]) {
        if axis >= Self::len_aligned(size) {
            return &mut [];
        }
        proof {
            lemma_product_order(axis as int, axis as int, size.width as int);
        }
        proof {
            vstd::slice::axiom_spec_len(slice);
        }
        let range = Self::axis_to_range(slice, size, axis);
        cut_mut(slice, range.start, range.end)
    }

    proof fn lemma_inverse(p: (int, int), width: int) {
        lemma_quotient(p.1, p.0, width);
    }
}

impl Traversal for RowMajor {
    open spec fn well_formed() -> bool {
        true
    }

    open spec fn positions(b: Bounds) -> Seq<(int, int)> {
        row_major_positions(b)
    }

    open spec fn blocks(b: Bounds, w: int, h: int) -> Seq<Bounds> {
        row_major_blocks(b, w, h)
    }

    open spec fn fills(width: int, height: int) -> bool {
        true
    }

    open spec fn fills_with(width: int, height: int, w: int, h: int) -> bool {
        width % w == 0 && height % h == 0
    }

    /// Returns the positions in the specified rectangle.
    ///
    /// The positions are returned in row-major order.
    ///
    /// ```txt
    /// (0, 0) (1, 0) (2, 0)
    /// (0, 1) (1, 1) (2, 1)
    /// ```
    fn iter_pos<T: Int>(rect: Rect<T>) -> (r: Vec<Pos<T>>) {
        let mut iter = IterPosRowMajor::new(rect);
        let mut out: Vec<Pos<T>> = Vec::new();
        loop
            invariant
                iter.wf(),
                pos_views(out@) + iter.remaining() == row_major_positions(rect@),
            ensures
                pos_views(out@) == row_major_positions(rect@),
            decreases iter.remaining().len(),
        {
            let ghost before = pos_views(out@);
            let ghost rest = iter.remaining();
            let next = iter.next();
            if next.is_none() {
                proof {
                    assert(pos_views(out@) =~= pos_views(out@) + rest);
                }
                break ;
            }
            out.push(next.unwrap());
            proof {
                assert(pos_views(out@) =~= before.push(rest[0]));
                assert(before.push(rest[0]) + rest.skip(1) =~= before + rest);
            }
        }
        out
    }

    /// Returns the blocks of the specified size within the rectangle.
    ///
    /// Blocks that would be partially outside the rectangle are not returned.
    ///
    /// ```txt
    /// [0, 0] [2, 0]
    /// [0, 2] [2, 2]
    /// ```
    fn iter_rect<T: Int>(rect: Rect<T>, size: Size) -> (r: Vec<Rect<T>>) {
        let mut iter = IterBlockRowMajor::new(rect, size);
        let mut out: Vec<Rect<T>> = Vec::new();
        let ghost all = row_major_blocks(rect@, size.width as int, size.height as int);
        loop
            invariant
                iter.wf(),
                iter.bounds() == rect@,
                iter.size() == size,
                rect_views(out@) + iter.remaining() == all,
                all == row_major_blocks(rect@, size.width as int, size.height as int),
            ensures
                rect_views(out@) == all,
            decreases iter.remaining().len(),
        {
            let ghost before = rect_views(out@);
            let ghost rest = iter.remaining();
            let next = iter.next();
            if next.is_none() {
                proof {
                    assert(rect_views(out@) =~= rect_views(out@) + rest);
                }
                break ;
            }
            out.push(next.unwrap());
            proof {
                assert(rect_views(out@) =~= before.push(rest[0]));
                assert(before.push(rest[0]) + rest.skip(1) =~= before + rest);
            }
        }
        out
    }

    proof fn lemma_positions(b: Bounds) {
        let s = row_major_positions(b);
        let w = b.width();
        let h = b.height();
        lemma_product_order(0, w, h);
        assert forall|i: int| 0 <= i < s.len() implies b.contains(#[trigger] s[i]) by {
            lemma_tile_number(w, h, i);
        }
        assert forall|i: int, j: int| 0 <= i < s.len() && 0 <= j < s.len() && i != j implies s[i]
            != s[j] by {
            lemma_tile_number(w, h, i);
            lemma_tile_number(w, h, j);
        }
        assert forall|p: (int, int)| #[trigger] b.contains(p) implies s.contains(p) by {
            let i = (p.1 - b.top) * w + (p.0 - b.left);
            lemma_quotient(p.1 - b.top, p.0 - b.left, w);
            lemma_product_order(p.1 - b.top + 1, h, w);
            lemma_product_order(p.1 - b.top, p.1 - b.top, w);
            lemma_product_order(0, p.1 - b.top, w);
            assert(h * w == w * h) by (nonlinear_arith);
            assert(s[i] == p);
        }
    }

    proof fn lemma_blocks(b: Bounds, w: int, h: int) {
        let s = row_major_blocks(b, w, h);
        let cols = b.width() / w;
        let rows = b.height() / h;
        lemma_floor(b.width(), w);
        lemma_floor(b.height(), h);
        lemma_product_order(0, cols, rows);
        assert forall|i: int| 0 <= i < s.len() implies (#[trigger] s[i]).width() == w
            && s[i].height() == h && b.contains_bounds(s[i]) by {
            lemma_tile_number(cols, rows, i);
            lemma_product_order(i % cols + 1, cols, w);
            lemma_product_order(i % cols, i % cols, w);
            lemma_product_order(i / cols + 1, rows, h);
            lemma_product_order(i / cols, i / cols, h);
            lemma_product_order(0, i % cols, w);
            lemma_product_order(0, i / cols, h);
        }
        assert forall|i: int, j: int, p: (int, int)|
            0 <= i < j < s.len() && (#[trigger] s[i].contains(p)) implies !(#[trigger] s[j].contains(
                p,
            )) by {
            lemma_tile_number(cols, rows, i);
            lemma_tile_number(cols, rows, j);
            if s[j].contains(p) {
                lemma_quotient(i % cols, p.0 - b.left - (i % cols) * w, w);
                lemma_quotient(j % cols, p.0 - b.left - (j % cols) * w, w);
                lemma_quotient(i / cols, p.1 - b.top - (i / cols) * h, h);
                lemma_quotient(j / cols, p.1 - b.top - (j / cols) * h, h);
            }
        }
        if b.width() % w == 0 && b.height() % h == 0 {
            assert forall|p: (int, int)| #[trigger] b.contains(p) implies exists|i: int|
                0 <= i < s.len() && (#[trigger] s[i].contains(p)) by {
                let col = (p.0 - b.left) / w;
                let row = (p.1 - b.top) / h;
                lemma_floor(p.0 - b.left, w);
                lemma_floor(p.1 - b.top, h);
                if col >= cols {
                    lemma_product_order(cols, col, w);
                }
                if row >= rows {
                    lemma_product_order(rows, row, h);
                }
                let i = row * cols + col;
                lemma_quotient(row, col, cols);
                lemma_product_order(row + 1, rows, cols);
                lemma_product_order(row, row, cols);
                lemma_product_order(0, row, cols);
                assert(rows * cols == cols * rows) by (nonlinear_arith);
                assert(s[i].contains(p));
            }
            assert(s.len() * (w * h) == b.area()) by (nonlinear_arith)
                requires
                    s.len() == cols * rows,
                    cols * w == b.width(),
                    rows * h == b.height(),
                    b.area() == b.width() * b.height(),
            ;
        }
    }
}

/// The cells of an aligned rectangle lie in linear data as a grid of their
/// own: the part of the data that the rectangle's range cuts out holds, at
/// the offset that a cell has within the rectangle, what the data holds at
/// the offset that the cell has within the grid.
pub proof fn lemma_row_major_round_trip<E>(data: Seq<E>, size: Size, b: Bounds, p: (int, int))
    requires
        b.wf(),
        0 <= b.left,
        0 <= b.top,
        row_major_aligned(size, b),
        row_major_range(size, b).unwrap().1 <= data.len(),
        b.contains(p),
    ensures
        ({
            let range = row_major_range(size, b).unwrap();
            let part = data.subrange(range.0, range.1);
            let at = row_major_index((p.0 - b.left, p.1 - b.top), b.width());
            &&& 0 <= range.0 <= range.1
            &&& part.len() == b.area()
            &&& 0 <= at < part.len()
            &&& part[at] == data[row_major_index(p, size.width as int)]
        }),
{
    let w = b.width();
    let h = b.height();
    lemma_product_order(0, b.top, size.width as int);
    lemma_product_order(0, w, h);
    lemma_product_order(0, p.1 - b.top, w);
    lemma_product_order(p.1 - b.top + 1, h, w);
    lemma_product_order(p.1 - b.top, p.1 - b.top, w);
    assert(h * w == w * h) by (nonlinear_arith);
    assert((p.1 - b.top) * w == p.1 * w - b.top * w) by (nonlinear_arith);
    if h == 1 {
        assert((p.1 - b.top) * w == 0) by (nonlinear_arith)
            requires
                p.1 == b.top,
        ;
    }
}

} // verus!

//! Column-major order.
use core::ops::Range;
use vstd::prelude::*;

use crate::integer::Int;
use crate::layout::{
    cut, cut_mut, lemma_floor, lemma_floor_rest, lemma_product_order, lemma_quotient,
    lemma_tile_number, pos_views, rect_views, tile, Linear, Traversal,
};
use crate::pos::Pos;
use crate::rect::{Bounds, Rect};
use crate::size::Size;

verus! {

/// The cell with the number `i` of `b` in column-major order.
pub open spec fn col_major_cell(b: Bounds, i: int) -> (int, int) {
    (b.left + i / b.height(), b.top + i % b.height())
}

/// The cells of `b`, column by column from the left, each column from the top.
pub open spec fn col_major_positions(b: Bounds) -> Seq<(int, int)> {
    Seq::new(b.area() as nat, |i: int| col_major_cell(b, i))
}

/// The tile with the number `i` of `b` in column-major order.
pub open spec fn col_major_tile(b: Bounds, w: int, h: int, i: int) -> Bounds {
    tile(b, w, h, i / (b.height() / h), i % (b.height() / h))
}

/// The whole tiles of `w` by `h` cells of `b`, column of tiles by column of
/// tiles from the left, each column from the top.
pub open spec fn col_major_blocks(b: Bounds, w: int, h: int) -> Seq<Bounds> {
    Seq::new(((b.height() / h) * (b.width() / w)) as nat, |i: int| col_major_tile(b, w, h, i))
}

/// The offset of the cell `p` where the columns are `width` cells long and
/// lie one after the other.
pub open spec fn col_major_index(p: (int, int), width: int) -> int {
    p.0 * width + p.1
}

/// The cell at the offset `index` where the columns are `width` cells long
/// and lie one after the other.
pub open spec fn col_major_pos(index: int, width: int) -> (int, int) {
    (index / width, index % width)
}

/// Whether the cells of `b` lie one after the other in a grid of `size`: `b`
/// is one column wide, or as high as the grid.
pub open spec fn col_major_aligned(size: Size, b: Bounds) -> bool {
    b.width() == 1 || b.height() == size.height
}

/// The offsets at which `b` starts and ends in a grid of `size`, where its
/// cells lie one after the other.
pub open spec fn col_major_range(size: Size, b: Bounds) -> Option<(int, int)> {
    if col_major_aligned(size, b) {
        Some((b.left * size.height + b.top, b.left * size.height + b.top + b.area()))
    } else {
        None
    }
}

/// Top-to-bottom, left-to-right traversal order for 2D layouts.
///
/// ```txt
/// 0 3 6 9
/// 1 4 7 A
/// 2 5 8 B
/// ```
pub struct ColumnMajor;

/// Iterator over positions in column-major order.
pub struct IterPosColMajor<T: Int> {
    current: Pos<T>,
    bounds: Rect<T>,
}

impl<T: Int> IterPosColMajor<T> {
    /// The region whose positions are given.
    pub closed spec fn bounds(&self) -> Bounds {
        self.bounds@
    }

    /// The number of positions that were given.
    pub closed spec fn given(&self) -> int {
        (self.current@.0 - self.bounds@.left) * self.bounds@.height() + (self.current@.1
            - self.bounds@.top)
    }

    /// The current position lies in the region, or all positions were given
    /// and it rests at the top-right corner.
    pub closed spec fn wf(&self) -> bool {
        let b = self.bounds@;
        let c = self.current@;
        &&& self.bounds.sized()
        &&& if c.0 == b.right {
            c.1 == b.top
        } else {
            b.contains(c)
        }
    }

    /// The positions that are still to come, in their order.
    pub open spec fn remaining(&self) -> Seq<(int, int)> {
        col_major_positions(self.bounds()).skip(self.given())
    }

    /// Starts at the first position of `rect`.
    pub fn new(rect: Rect<T>) -> (r: Self)
        requires
            rect.sized(),
        ensures
            r.wf(),
            r.bounds() == rect@,
            r.remaining() == col_major_positions(rect@),
    {
        let current = if rect.is_empty() {
            rect.top_right()
        } else {
            rect.top_left()
        };
        let r = IterPosColMajor { current, bounds: rect };
        proof {
            let b = rect@;
            if b.is_empty() {
                assert(b.width() * b.height() == b.area()) by (nonlinear_arith);
                assert(b.area() == 0) by (nonlinear_arith)
                    requires
                        b.height() == 0 || b.width() == 0,
                        b.area() == b.width() * b.height(),
                ;
            }
            assert(r.given() == 0) by (nonlinear_arith)
                requires
                    r.given() == (r.current@.0 - b.left) * b.height() + (r.current@.1 - b.top),
                    r.current@.1 == b.top,
                    r.current@.0 == b.left || (r.current@.0 == b.right && (b.height() == 0
                        || b.right == b.left)),
            ;
            assert(r.remaining() =~= col_major_positions(rect@));
        }
        r
    }

    /// Gives the next position, or `None` once all were given.
    pub fn next(&mut self) -> (r: Option<Pos<T>>)
        requires
            old(self).wf(),
        ensures
            final(self).wf(),
            final(self).bounds() == old(self).bounds(),
            old(self).remaining().len() == 0 ==> r.is_none() && final(self).remaining() == old(
                self,
            ).remaining(),
            old(self).remaining().len() > 0 ==> r.is_some() && r.unwrap()@ == old(
                self,
            ).remaining()[0] && final(self).remaining() == old(self).remaining().skip(1),
    {
        let ghost b = self.bounds@;
        let ghost c = self.current@;
        let ghost k = self.given();
        let bottom = self.bounds.bottom();
        let right = self.bounds.right();
        proof {
            T::lemma_limits();
            T::lemma_order(self.current.x, right);
            lemma_product_order(c.0 - b.left, b.width(), b.height());
            assert(b.width() * b.height() == b.area()) by (nonlinear_arith);
        }
        if self.current.x >= right {
            return None;
        }
        let pos = self.current;
        proof {
            lemma_product_order(c.0 - b.left, b.width() - 1, b.height());
            lemma_product_order(b.width() - 1, b.width() - 1, b.height());
            lemma_product_order(c.0 - b.left, c.0 - b.left, b.height());
            lemma_quotient(c.0 - b.left, c.1 - b.top, b.height());
            T::lemma_add(pos.y, T::ONE);
            T::lemma_add(pos.x, T::ONE);
            T::lemma_value(bottom, right);
            T::lemma_value(right, bottom);
            T::lemma_value(pos.y, pos.x);
            T::lemma_value(pos.x, pos.y);
        }
        self.current.y = pos.y + T::ONE;
        proof {
            T::lemma_order(self.current.y, bottom);
        }
        if self.current.y >= bottom {
            self.current.y = self.bounds.top();
            self.current.x = pos.x + T::ONE;
        }
        proof {
            assert(self.given() == k + 1);
            assert(self.remaining() =~= old(self).remaining().skip(1));
        }
        Some(pos)
    }

    /// Returns the number of positions that are still to come.
    pub fn len(&self) -> (r: usize)
        requires
            self.wf(),
            self.bounds().area() <= usize::MAX,
        ensures
            r == self.remaining().len(),
    {
        let ghost b = self.bounds@;
        let ghost c = self.current@;
        let bottom = self.bounds.bottom();
        let right = self.bounds.right();
        proof {
            T::lemma_limits();
            T::lemma_order(self.current.x, right);
            T::lemma_sub(right, self.current.x);
            T::lemma_sub(bottom, self.current.y);
            lemma_product_order(c.0 - b.left, b.width(), b.height());
            assert(b.width() * b.height() == b.area()) by (nonlinear_arith);
        }
        if self.current.x >= right {
            return 0;
        }
        let cols = (right - self.current.x).to_usize() - 1;
        let rest = (bottom - self.current.y).to_usize();
        let height = self.bounds.height();
        proof {
            assert(cols * height + rest == b.area() - self.given()) by (nonlinear_arith)
                requires
                    cols == b.right - c.0 - 1,
                    rest == b.bottom - c.1,
                    height == b.bottom - b.top,
                    b.area() == (b.bottom - b.top) * (b.right - b.left),
                    self.given() == (c.0 - b.left) * (b.bottom - b.top) + (c.1 - b.top),
            ;
            assert(0 <= cols * height) by (nonlinear_arith)
                requires
                    0 <= cols,
                    0 <= height,
            ;
        }
        cols * height + rest
    }
}

/// Iterator over blocks in column-major order.
pub struct IterBlockColMajor<T: Int> {
    current: Pos<T>,
    bounds: Rect<T>,
    size: Size,
    row: Ghost<int>,
    col: Ghost<int>,
}

impl<T: Int> IterBlockColMajor<T> {
    /// The region whose blocks are given.
    pub closed spec fn bounds(&self) -> Bounds {
        self.bounds@
    }

    /// The size of a block.
    pub closed spec fn size(&self) -> Size {
        self.size
    }

    /// The number of blocks in a column of blocks.
    pub open spec fn rows(&self) -> int {
        self.bounds().height() / (self.size().height as int)
    }

    /// The number of columns of blocks.
    pub open spec fn cols(&self) -> int {
        self.bounds().width() / (self.size().width as int)
    }

    /// The number of blocks that were given.
    pub closed spec fn given(&self) -> int {
        self.col@ * self.rows() + self.row@
    }

    /// The current position is the top-left corner of the block to come, or
    /// all blocks were given and it rests at the top edge.
    pub closed spec fn wf(&self) -> bool {
        let b = self.bounds@;
        let c = self.current@;
        &&& self.bounds.sized()
        &&& self.size.height > 0
        &&& self.size.width > 0
        &&& c.1 == b.top + self.row@ * self.size.height
        &&& c.0 == b.left + self.col@ * self.size.width
        &&& 0 <= self.row@
        &&& 0 <= self.col@ <= self.cols()
        &&& if self.rows() == 0 || self.col@ == self.cols() {
            self.row@ == 0 && (self.rows() == 0 ==> self.col@ == 0)
        } else {
            self.row@ < self.rows()
        }
    }

    /// The blocks that are still to come, in their order.
    pub open spec fn remaining(&self) -> Seq<Bounds> {
        col_major_blocks(
            self.bounds(),
            self.size().width as int,
            self.size().height as int,
        ).skip(self.given())
    }

    /// Starts at the first block of `rect`.
    pub fn new(rect: Rect<T>, size: Size) -> (r: Self)
        requires
            rect.sized(),
            size.height > 0,
            size.width > 0,
        ensures
            r.wf(),
            r.bounds() == rect@,
            r.size() == size,
            r.remaining() == col_major_blocks(rect@, size.width as int, size.height as int),
    {
        let r = IterBlockColMajor {
            current: rect.top_left(),
            bounds: rect,
            size,
            row: Ghost(0),
            col: Ghost(0),
        };
        proof {
            lemma_floor(rect@.height(), size.height as int);
            lemma_floor(rect@.width(), size.width as int);
            assert(0 * r.rows() + 0 == 0) by (nonlinear_arith);
            assert(r.remaining() =~= col_major_blocks(
                rect@,
                size.width as int,
                size.height as int,
            ));
        }
        r
    }

    /// Gives the next block, or `None` once all were given.
    pub fn next(&mut self) -> (r: Option<Rect<T>>)
        requires
            old(self).wf(),
        ensures
            final(self).wf(),
            final(self).bounds() == old(self).bounds(),
            final(self).size() == old(self).size(),
            old(self).remaining().len() == 0 ==> r.is_none() && final(self).remaining() == old(
                self,
            ).remaining(),
            old(self).remaining().len() > 0 ==> r.is_some() && r.unwrap()@ == old(
                self,
            ).remaining()[0] && final(self).remaining() == old(self).remaining().skip(1),
    {
        let ghost b = self.bounds@;
        let ghost c = self.current@;
        let ghost h = self.size.height as int;
        let ghost w = self.size.width as int;
        let ghost rows = self.rows();
        let ghost cols = self.cols();
        let ghost row = self.row@;
        let ghost col = self.col@;
        let ghost k = self.given();
        let bottom = self.bounds.bottom();
        let right = self.bounds.right();
        proof {
            T::lemma_limits();
            lemma_floor(b.height(), h);
            lemma_floor(b.width(), w);
            lemma_product_order(row, rows, h);
            lemma_product_order(col, cols, w);
            lemma_product_order(col, cols, rows);
            T::lemma_value(self.current.y, self.current.x);
            T::lemma_value(self.current.x, self.current.y);
            T::lemma_value(bottom, right);
            T::lemma_value(right, bottom);
            T::lemma_sub(bottom, self.current.y);
            T::lemma_sub(right, self.current.x);
            if rows != 0 && col != cols {
                lemma_product_order(row + 1, rows, h);
                lemma_product_order(row, row, h);
                lemma_product_order(col + 1, cols, w);
                lemma_product_order(col, col, w);
                lemma_product_order(col + 1, cols, rows);
                lemma_product_order(col, col, rows);
                lemma_quotient(col, row, rows);
            }
        }
        let free_y = (bottom - self.current.y).to_usize();
        let free_x = (right - self.current.x).to_usize();
        if free_y < self.size.height || free_x < self.size.width {
            return None;
        }
        let block = Rect::new(self.current, self.size);
        let height = T::from_usize(self.size.height);
        proof {
            T::lemma_add(self.current.y, height);
        }
        let y = self.current.y + height;
        proof {
            T::lemma_sub(bottom, y);
            if row + 1 < rows {
                lemma_product_order(row + 2, rows, h);
                lemma_product_order(row + 1, row + 1, h);
            }
        }
        if (bottom - y).to_usize() < self.size.height {
            let width = T::from_usize(self.size.width);
            proof {
                T::lemma_add(self.current.x, width);
            }
            self.current.y = self.bounds.top();
            self.current.x = self.current.x + width;
            self.row = Ghost(0);
            self.col = Ghost(col + 1);
        } else {
            self.current.y = y;
            self.row = Ghost(row + 1);
        }
        proof {
            assert(self.given() == k + 1);
            assert(self.remaining() =~= old(self).remaining().skip(1));
        }
        Some(block)
    }
}

impl<T: Int> IterBlockColMajor<T> {
    /// Returns the number of blocks that are still to come.
    pub fn len(&self) -> (r: usize)
        requires
            self.wf(),
            self.bounds().area() <= usize::MAX,
        ensures
            r == self.remaining().len(),
    {
        let ghost b = self.bounds@;
        let ghost h = self.size.height as int;
        let ghost w = self.size.width as int;
        let ghost rows = self.rows();
        let ghost cols = self.cols();
        let ghost row = self.row@;
        let ghost col = self.col@;
        let bottom = self.bounds.bottom();
        let right = self.bounds.right();
        proof {
            T::lemma_limits();
            lemma_floor(b.height(), h);
            lemma_floor(b.width(), w);
            lemma_product_order(row, rows, h);
            lemma_product_order(col, cols, w);
            lemma_product_order(col, cols, rows);
            lemma_product_order(0, row, h);
            lemma_product_order(0, col, w);
            lemma_product_order(0, cols, rows);
            lemma_floor_rest(b.height(), h, row);
            lemma_floor_rest(b.width(), w, col);
            T::lemma_value(self.current.y, self.current.x);
            T::lemma_value(self.current.x, self.current.y);
            T::lemma_value(bottom, right);
            T::lemma_value(right, bottom);
            T::lemma_sub(bottom, self.current.y);
            T::lemma_sub(right, self.current.x);
        }
        let down = (bottom - self.current.y).to_usize() / self.size.height;
        let across = (right - self.current.x).to_usize() / self.size.width;
        proof {
            assert(cols * rows == rows * cols) by (nonlinear_arith);
            assert(rows == 0 ==> col * rows == 0 && rows * cols == 0) by (nonlinear_arith);
        }
        if down == 0 || across == 0 {
            return 0;
        }
        let per_col = self.bounds.height() / self.size.height;
        proof {
            assert((across - 1) * per_col + down == cols * rows - (col * rows + row))
                by (nonlinear_arith)
                requires
                    across == cols - col,
                    down == rows - row,
                    per_col == rows,
            ;
            assert(0 <= (across - 1) * per_col) by (nonlinear_arith)
                requires
                    1 <= across,
                    0 <= per_col,
            ;
            assert((across - 1) * per_col <= b.width() * per_col) by (nonlinear_arith)
                requires
                    across <= b.width(),
                    0 <= per_col,
            ;
            assert(b.width() * per_col <= b.area()) by (nonlinear_arith)
                requires
                    0 <= b.width(),
                    per_col <= b.height(),
                    b.area() == b.width() * b.height(),
            ;
            assert((across - 1) * per_col + down <= b.width() * per_col) by (nonlinear_arith)
                requires
                    1 <= across <= b.width(),
                    0 <= down <= per_col,
            ;
        }
        (across - 1) * per_col + down
    }
}

impl ColumnMajor {
    /// Returns the range of indices of the column with the number `axis`.
    ///
    /// `slice.len()` must be a multiple of `size.width * size.height`.
    pub fn axis_to_range<E>(slice: &[E], size: Size, axis: usize) -> (r: Range<usize>)
        requires
            0 < size.spec_area() <= usize::MAX,
            slice@.len() % (size.spec_area() as nat) == 0,
            (axis + 1) * size.height <= usize::MAX,
        ensures
            r.start == axis * size.height,
            r.end == (axis + 1) * size.height,
    {
        proof {
            lemma_product_order(axis as int, axis as int, size.height as int);
        }
        let start = axis * size.height;
        let end = start + size.height;
        start..end
    }
}

impl Linear for ColumnMajor {
    open spec fn index_req(p: (int, int), width: int) -> bool {
        col_major_index(p, width) <= usize::MAX
    }

    open spec fn index_of(p: (int, int), width: int) -> int {
        col_major_index(p, width)
    }

    open spec fn pos_req(index: int, width: int) -> bool {
        width > 0
    }

    open spec fn pos_of(index: int, width: int) -> (int, int) {
        col_major_pos(index, width)
    }

    open spec fn invertible(p: (int, int), width: int) -> bool {
        p.1 < width
    }

    open spec fn axes(size: Size) -> int {
        size.width as int
    }

    open spec fn axis_len(size: Size) -> int {
        size.height as int
    }

    open spec fn range_req(size: Size, b: Bounds) -> bool {
        col_major_aligned(size, b) ==> b.left * size.height + b.top + b.area() <= usize::MAX
    }

    open spec fn range_of(size: Size, b: Bounds) -> Option<(int, int)> {
        col_major_range(size, b)
    }

    fn pos_to_index(pos: Pos<usize>, width: usize) -> (r: usize) {
        proof {
            lemma_product_order(0, pos.x as int, width as int);
        }
        pos.x * width + pos.y
    }

    fn index_to_pos(index: usize, width: usize) -> (r: Pos<usize>) {
        let y = index % width;
        let x = index / width;
        Pos::new(x, y)
    }

    fn len_aligned(size: Size) -> (r: usize) {
        size.width
    }

    fn rect_to_range(size: Size, rect: Rect<usize>) -> (r: Option<Range<usize>>) {
        proof {
            rect.lemma_view(rect);
        }
        // Must be either:
        // - Elements entirely within a single column (width = 1)
        // - Elements spanning multiple columns but full-height
        if rect.width() != 1 && rect.height() != size.height {
            return None;
        }
        let top_left = rect.top_left();
        proof {
            lemma_product_order(0, top_left.x as int, size.height as int);
            lemma_product_order(0, rect@.height(), rect@.width());
        }
        let start = top_left.x * size.height + top_left.y;
        let end = start + rect.height() * rect.width();
        Some(start..end)
    }

    fn slice_rect_aligned<'a, E>(slice: &'a [E], size: Size, rect: Rect<usize>) -> (r: Option<
        &'a [E],
    >) {
        proof {
            rect.lemma_view(rect);
            lemma_product_order(0, rect@.left, size.height as int);
            lemma_product_order(0, rect@.height(), rect@.width());
        }
        let range = match Self::rect_to_range(size, rect) {
            Some(range) => range,
            None => { return None; },
        };
        if range.end > slice.len() {
            return None;
        }
        Some(cut(slice, range.start, range.end))
    }

    fn slice_rect_aligned_mut<'a, E>(slice: &'a mut [E], size: Size, rect: Rect<usize>) -> (r:
        Option<&'a mut [E]>) {
        proof {
            rect.lemma_view(rect);
            lemma_product_order(0, rect@.left, size.height as int);
            lemma_product_order(0, rect@.height(), rect@.width());
        }
        let range = match Self::rect_to_range(size, rect) {
            Some(range) => range,
            None => { return None; },
        };
        if range.end > slice.len() {
            return None;
        }
        Some(cut_mut(slice, range.start, range.end))
    }

    fn slice_aligned<'a, E>(slice: &'a [E], size: Size, axis: usize) -> (r: &'a [E]) {
        if axis >= Self::len_aligned(size) {
            return cut(slice, 0, 0);
        }
        proof {
            lemma_product_order(axis as int, axis as int, size.height as int);
        }
        proof {
            vstd::slice::axiom_spec_len(slice);
        }
        let range = Self::axis_to_range(slice, size, axis);
        cut(slice, range.start, range.end)
    }

    fn slice_aligned_mut<'a, E>(slice: &'a mut [E], size: Size, axis: usize) -> (r: &'a mut [E]) {
        if axis >= Self::len_aligned(size) {
            return &mut [];
        }
        proof {
            lemma_product_order(axis as int, axis as int, size.height as int);
        }
        proof {
            vstd::slice::axiom_spec_len(slice);
        }
        let range = Self::axis_to_range(slice, size, axis);
        cut_mut(slice, range.start, range.end)
    }

    proof fn lemma_inverse(p: (int, int), width: int) {
        lemma_quotient(p.0, p.1, width);
    }
}

impl Traversal for ColumnMajor {
    open spec fn well_formed() -> bool {
        true
    }

    open spec fn positions(b: Bounds) -> Seq<(int, int)> {
        col_major_positions(b)
    }

    open spec fn blocks(b: Bounds, w: int, h: int) -> Seq<Bounds> {
        col_major_blocks(b, w, h)
    }

    open spec fn fills(height: int, width: int) -> bool {
        true
    }

    open spec fn fills_with(height: int, width: int, h: int, w: int) -> bool {
        height % h == 0 && width % w == 0
    }

    /// Returns the positions in the specified rectangle.
    ///
    /// The positions are returned in column-major order.
    ///
    /// ```txt
    /// (0, 0) (0, 1)
    /// (1, 0) (1, 1)
    /// (2, 0) (2, 1)
    /// ```
    fn iter_pos<T: Int>(rect: Rect<T>) -> (r: Vec<Pos<T>>) {
        let mut iter = IterPosColMajor::new(rect);
        let mut out: Vec<Pos<T>> = Vec::new();
        loop
            invariant
                iter.wf(),
                pos_views(out@) + iter.remaining() == col_major_positions(rect@),
            ensures
                pos_views(out@) == col_major_positions(rect@),
            decreases iter.remaining().len(),
        {
            let ghost before = pos_views(out@);
            let ghost rest = iter.remaining();
            let next = iter.next();
            if next.is_none() {
                proof {
                    assert(pos_views(out@) =~= pos_views(out@) + rest);
                }
                break ;
            }
            out.push(next.unwrap());
            proof {
                assert(pos_views(out@) =~= before.push(rest[0]));
                assert(before.push(rest[0]) + rest.skip(1) =~= before + rest);
            }
        }
        out
    }

    /// Returns the blocks of the specified size within the rectangle.
    ///
    /// Blocks that would be partially outside the rectangle are not returned.
    ///
    /// ```txt
    /// [0, 0] [0, 2]
    /// [2, 0] [2, 2]
    /// ```
    fn iter_rect<T: Int>(rect: Rect<T>, size: Size) -> (r: Vec<Rect<T>>) {
        let mut iter = IterBlockColMajor::new(rect, size);
        let mut out: Vec<Rect<T>> = Vec::new();
        let ghost all = col_major_blocks(rect@, size.width as int, size.height as int);
        loop
            invariant
                iter.wf(),
                iter.bounds() == rect@,
                iter.size() == size,
                rect_views(out@) + iter.remaining() == all,
                all == col_major_blocks(rect@, size.width as int, size.height as int),
            ensures
                rect_views(out@) == all,
            decreases iter.remaining().len(),
        {
            let ghost before = rect_views(out@);
            let ghost rest = iter.remaining();
            let next = iter.next();
            if next.is_none() {
                proof {
                    assert(rect_views(out@) =~= rect_views(out@) + rest);
                }
                break ;
            }
            out.push(next.unwrap());
            proof {
                assert(rect_views(out@) =~= before.push(rest[0]));
                assert(before.push(rest[0]) + rest.skip(1) =~= before + rest);
            }
        }
        out
    }

    proof fn lemma_positions(b: Bounds) {
        let s = col_major_positions(b);
        let h = b.height();
        let w = b.width();
        lemma_product_order(0, h, w);
        assert forall|i: int| 0 <= i < s.len() implies b.contains(#[trigger] s[i]) by {
            lemma_tile_number(h, w, i);
        }
        assert forall|i: int, j: int| 0 <= i < s.len() && 0 <= j < s.len() && i != j implies s[i]
            != s[j] by {
            lemma_tile_number(h, w, i);
            lemma_tile_number(h, w, j);
        }
        assert forall|p: (int, int)| #[trigger] b.contains(p) implies s.contains(p) by {
            let i = (p.0 - b.left) * h + (p.1 - b.top);
            lemma_quotient(p.0 - b.left, p.1 - b.top, h);
            lemma_product_order(p.0 - b.left + 1, w, h);
            lemma_product_order(p.0 - b.left, p.0 - b.left, h);
            lemma_product_order(0, p.0 - b.left, h);
            assert(w * h == h * w) by (nonlinear_arith);
            assert(s[i] == p);
        }
    }

    proof fn lemma_blocks(b: Bounds, w: int, h: int) {
        let s = col_major_blocks(b, w, h);
        let rows = b.height() / h;
        let cols = b.width() / w;
        lemma_floor(b.height(), h);
        lemma_floor(b.width(), w);
        lemma_product_order(0, rows, cols);
        assert forall|i: int| 0 <= i < s.len() implies (#[trigger] s[i]).height() == h
            && s[i].width() == w && b.contains_bounds(s[i]) by {
            lemma_tile_number(rows, cols, i);
            lemma_product_order(i % rows + 1, rows, h);
            lemma_product_order(i % rows, i % rows, h);
            lemma_product_order(i / rows + 1, cols, w);
            lemma_product_order(i / rows, i / rows, w);
            lemma_product_order(0, i % rows, h);
            lemma_product_order(0, i / rows, w);
        }
        assert forall|i: int, j: int, p: (int, int)|
            0 <= i < j < s.len() && (#[trigger] s[i].contains(p)) implies !(#[trigger] s[j].contains(
                p,
            )) by {
            lemma_tile_number(rows, cols, i);
            lemma_tile_number(rows, cols, j);
            if s[j].contains(p) {
                lemma_quotient(i % rows, p.1 - b.top - (i % rows) * h, h);
                lemma_quotient(j % rows, p.1 - b.top - (j % rows) * h, h);
                lemma_quotient(i / rows, p.0 - b.left - (i / rows) * w, w);
                lemma_quotient(j / rows, p.0 - b.left - (j / rows) * w, w);
            }
        }
        if b.height() % h == 0 && b.width() % w == 0 {
            assert forall|p: (int, int)| #[trigger] b.contains(p) implies exists|i: int|
                0 <= i < s.len() && (#[trigger] s[i].contains(p)) by {
                let row = (p.1 - b.top) / h;
                let col = (p.0 - b.left) / w;
                lemma_floor(p.1 - b.top, h);
                lemma_floor(p.0 - b.left, w);
                if row >= rows {
                    lemma_product_order(rows, row, h);
                }
                if col >= cols {
                    lemma_product_order(cols, col, w);
                }
                let i = col * rows + row;
                lemma_quotient(col, row, rows);
                lemma_product_order(col + 1, cols, rows);
                lemma_product_order(col, col, rows);
                lemma_product_order(0, col, rows);
                assert(cols * rows == rows * cols) by (nonlinear_arith);
                assert(s[i].contains(p));
            }
            assert(s.len() * (h * w) == b.area()) by (nonlinear_arith)
                requires
                    s.len() == rows * cols,
                    rows * h == b.height(),
                    cols * w == b.width(),
                    b.area() == b.width() * b.height(),
            ;
        }
    }
}

/// The cells of an aligned rectangle lie in linear data as a grid of their
/// own: the part of the data that the rectangle's range cuts out holds, at
/// the offset that a cell has within the rectangle, what the data holds at
/// the offset that the cell has within the grid.
pub proof fn lemma_col_major_round_trip<E>(data: Seq<E>, size: Size, b: Bounds, p: (int, int))
    requires
        b.wf(),
        0 <= b.top,
        0 <= b.left,
        col_major_aligned(size, b),
        col_major_range(size, b).unwrap().1 <= data.len(),
        b.contains(p),
    ensures
        ({
            let range = col_major_range(size, b).unwrap();
            let part = data.subrange(range.0, range.1);
            let at = col_major_index((p.0 - b.left, p.1 - b.top), b.height());
            &&& 0 <= range.0 <= range.1
            &&& part.len() == b.area()
            &&& 0 <= at < part.len()
            &&& part[at] == data[col_major_index(p, size.height as int)]
        }),
{
    let h = b.height();
    let w = b.width();
    lemma_product_order(0, b.left, size.height as int);
    lemma_product_order(0, h, w);
    lemma_product_order(0, p.0 - b.left, h);
    lemma_product_order(p.0 - b.left + 1, w, h);
    lemma_product_order(p.0 - b.left, p.0 - b.left, h);
    assert(w * h == h * w) by (nonlinear_arith);
    assert((p.0 - b.left) * h == p.0 * h - b.left * h) by (nonlinear_arith);
    if w == 1 {
        assert((p.0 - b.left) * h == 0) by (nonlinear_arith)
            requires
                p.0 == b.left,
        ;
    }
}

} // verus!

//! Axis-aligned rectangles in 2D space.
use vstd::prelude::*;
use vstd::std_specs::ops::{AddSpecImpl, DivSpecImpl, MulSpecImpl, SubSpecImpl};

use crate::index::{ColMajor, Layout, RowMajor};
use crate::integer::{trunc_div, Int};
use crate::layout::col_major::col_major_positions;
use crate::layout::pos_views;
use crate::layout::row_major::row_major_positions;
use crate::pos::Pos;
use crate::size::{HasSize, Size};

verus! {

/// The region that a rectangle stands for: the integers of its four edges.
///
/// The region holds the cells `(x, y)` with `left <= x < right` and
/// `top <= y < bottom`.
pub struct Bounds {
    pub left: int,
    pub top: int,
    pub right: int,
    pub bottom: int,
}

impl Bounds {
    /// The region with the top-left corner `(left, top)` and the given size.
    pub open spec fn at(left: int, top: int, size: Size) -> Bounds {
        Bounds { left, top, right: left + size.width, bottom: top + size.height }
    }

    /// Whether no edge lies before its opposite.
    pub open spec fn wf(self) -> bool {
        self.left <= self.right && self.top <= self.bottom
    }

    /// The number of columns.
    pub open spec fn width(self) -> int {
        self.right - self.left
    }

    /// The number of rows.
    pub open spec fn height(self) -> int {
        self.bottom - self.top
    }

    /// The number of cells.
    pub open spec fn area(self) -> int {
        self.width() * self.height()
    }

    /// Whether the region holds no cell.
    pub open spec fn is_empty(self) -> bool {
        self.width() == 0 || self.height() == 0
    }

    /// Whether the cell `p` lies in the region.
    pub open spec fn contains(self, p: (int, int)) -> bool {
        self.left <= p.0 < self.right && self.top <= p.1 < self.bottom
    }

    /// Whether no edge of `other` lies outside of the region.
    pub open spec fn contains_bounds(self, other: Bounds) -> bool {
        &&& self.left <= other.left
        &&& self.right >= other.right
        &&& self.top <= other.top
        &&& self.bottom >= other.bottom
    }

    /// The region that `self` and `other` share; the empty region at the
    /// origin where they share no cell.
    pub open spec fn intersect(self, other: Bounds) -> Bounds {
        let l = if self.left >= other.left { self.left } else { other.left };
        let t = if self.top >= other.top { self.top } else { other.top };
        let r = if self.right <= other.right { self.right } else { other.right };
        let b = if self.bottom <= other.bottom { self.bottom } else { other.bottom };
        if l < r && t < b {
            Bounds { left: l, top: t, right: r, bottom: b }
        } else {
            Bounds { left: 0, top: 0, right: 0, bottom: 0 }
        }
    }

    /// The region moved by `d`.
    pub open spec fn shifted(self, d: (int, int)) -> Bounds {
        Bounds {
            left: self.left + d.0,
            top: self.top + d.1,
            right: self.right + d.0,
            bottom: self.bottom + d.1,
        }
    }

    /// The region with every edge multiplied by `k`.
    pub open spec fn scaled(self, k: int) -> Bounds {
        Bounds {
            left: self.left * k,
            top: self.top * k,
            right: self.right * k,
            bottom: self.bottom * k,
        }
    }

    /// The region with every edge divided by `k`, rounded towards zero.
    pub open spec fn divided(self, k: int) -> Bounds {
        Bounds {
            left: trunc_div(self.left, k),
            top: trunc_div(self.top, k),
            right: trunc_div(self.right, k),
            bottom: trunc_div(self.bottom, k),
        }
    }
}

/// A 2-dimensional rectangle with integer precision.
///
/// The rectangle is defined by its left, top, right and bottom edges, and
/// holds the positions from the left and top edges up to, but without, the
/// right and bottom edges.
#[derive(Debug, Clone, Copy, PartialEq, Eq)]
pub struct Rect<T: Int = i32> {
    l: T,
    t: T,
    r: T,
    b: T,
}

/// An error that occurs when creating a rectangle.
#[derive(Debug, Clone, Copy, PartialEq, Eq, Structural)]
pub enum RectError {
    /// The edges given do not make a rectangle.
    InvalidDimensions,
}

impl<T: Int> View for Rect<T> {
    type V = Bounds;

    /// The region that the rectangle stands for.
    closed spec fn view(&self) -> Bounds {
        Bounds {
            left: self.l.as_int(),
            top: self.t.as_int(),
            right: self.r.as_int(),
            bottom: self.b.as_int(),
        }
    }
}

impl<T: Int> Rect<T> {
    /// Whether `T` can hold the four edges of `b`.
    pub open spec fn holds(b: Bounds) -> bool {
        &&& T::min_int() <= b.left <= T::max_int()
        &&& T::min_int() <= b.top <= T::max_int()
        &&& T::min_int() <= b.right <= T::max_int()
        &&& T::min_int() <= b.bottom <= T::max_int()
    }

    /// The rectangle that stands for `b`, where `T` can hold its edges.
    pub closed spec fn of(b: Bounds) -> Self {
        Rect {
            l: T::from_int(b.left),
            t: T::from_int(b.top),
            r: T::from_int(b.right),
            b: T::from_int(b.bottom),
        }
    }

    /// Whether the width and the height can be measured: no edge lies before
    /// its opposite, and `T` and `usize` can hold both extents.
    pub open spec fn sized(&self) -> bool {
        &&& self@.wf()
        &&& self@.width() <= T::max_int()
        &&& self@.width() <= usize::MAX
        &&& self@.height() <= T::max_int()
        &&& self@.height() <= usize::MAX
    }

    /// A rectangle is the one that `of` gives for its own region, and
    /// rectangles with the same region are equal.
    pub proof fn lemma_view(self, other: Self)
        ensures
            Self::holds(self@),
            Self::of(self@) == self,
            self@ == other@ ==> self == other,
    {
        T::lemma_value(self.l, other.l);
        T::lemma_value(self.t, other.t);
        T::lemma_value(self.r, other.r);
        T::lemma_value(self.b, other.b);
    }

    /// The region of `of(b)` is `b` where `T` can hold its edges.
    pub proof fn lemma_of(b: Bounds)
        requires
            Self::holds(b),
        ensures
            Self::of(b)@ == b,
    {
        T::lemma_from_int(b.left);
        T::lemma_from_int(b.top);
        T::lemma_from_int(b.right);
        T::lemma_from_int(b.bottom);
    }

    /// An empty rectangle at the origin.
    pub fn empty() -> (r: Self)
        ensures
            r@ == (Bounds { left: 0, top: 0, right: 0, bottom: 0 }),
    {
        proof {
            T::lemma_limits();
        }
        Self { l: T::ZERO, t: T::ZERO, r: T::ZERO, b: T::ZERO }
    }

    /// Creates a new rectangle with the given top-left corner and size.
    pub fn new(top_left: Pos<T>, size: Size) -> (r: Self)
        requires
            size.width <= T::max_int(),
            size.height <= T::max_int(),
            top_left@.0 + size.width <= T::max_int(),
            top_left@.1 + size.height <= T::max_int(),
        ensures
            r@ == Bounds::at(top_left@.0, top_left@.1, size),
    {
        Self::from_ltwh(top_left.x, top_left.y, size.width, size.height)
    }

    /// Creates a new rectangle from its top-left and bottom-right corners.
    ///
    /// The top-left corner must lie before the bottom-right corner in both
    /// coordinates.
    pub fn from_tlbr(tl: Pos<T>, br: Pos<T>) -> (r: Result<Self, RectError>)
        ensures
            tl@.0 < br@.0 && tl@.1 < br@.1 ==> r.is_ok() && r.unwrap()@ == (Bounds {
                left: tl@.0,
                top: tl@.1,
                right: br@.0,
                bottom: br@.1,
            }),
            !(tl@.0 < br@.0 && tl@.1 < br@.1) ==> r == Err::<Self, RectError>(
                RectError::InvalidDimensions,
            ),
    {
        proof {
            T::lemma_order(tl.x, br.x);
            T::lemma_order(tl.y, br.y);
        }
        if tl.x >= br.x || tl.y >= br.y {
            Err(RectError::InvalidDimensions)
        } else {
            Ok(Self { l: tl.x, t: tl.y, r: br.x, b: br.y })
        }
    }

    /// Creates a new rectangle from its left, top, right and bottom edges.
    ///
    /// The left edge must not lie after the right edge, nor the top edge
    /// after the bottom edge.
    pub fn from_ltrb(l: T, t: T, r: T, b: T) -> (res: Result<Self, RectError>)
        ensures
            l.as_int() <= r.as_int() && t.as_int() <= b.as_int() ==> res.is_ok() && res.unwrap()@
                == (Bounds {
                left: l.as_int(),
                top: t.as_int(),
                right: r.as_int(),
                bottom: b.as_int(),
            }),
            !(l.as_int() <= r.as_int() && t.as_int() <= b.as_int()) ==> res == Err::<
                Self,
                RectError,
            >(RectError::InvalidDimensions),
    {
        proof {
            T::lemma_order(l, r);
            T::lemma_order(t, b);
        }
        if l > r || t > b {
            Err(RectError::InvalidDimensions)
        } else {
            Ok(Self { l, t, r, b })
        }
    }

    /// Creates a new rectangle from its edges, which the caller has put in order.
    pub fn from_ltrb_unchecked(l: T, t: T, r: T, b: T) -> (res: Self)
        requires
            l.as_int() <= r.as_int(),
            t.as_int() <= b.as_int(),
        ensures
            res@ == (Bounds {
                left: l.as_int(),
                top: t.as_int(),
                right: r.as_int(),
                bottom: b.as_int(),
            }),
    {
        Self { l, t, r, b }
    }

    /// Creates a new rectangle from its left and top edges, width and height.
    pub fn from_ltwh(l: T, t: T, w: usize, h: usize) -> (r: Self)
        requires
            w <= T::max_int(),
            h <= T::max_int(),
            l.as_int() + w <= T::max_int(),
            t.as_int() + h <= T::max_int(),
        ensures
            r@ == Bounds::at(l.as_int(), t.as_int(), Size { width: w, height: h }),
    {
        let width = T::from_usize(w);
        let height = T::from_usize(h);
        proof {
            T::lemma_value(l, t);
            T::lemma_value(t, l);
            T::lemma_add(l, width);
            T::lemma_add(t, height);
        }
        Self { l, t, r: l + width, b: t + height }
    }

    /// Returns the top edge of the rectangle.
    pub fn top(&self) -> (r: T)
        ensures
            r.as_int() == self@.top,
    {
        self.t
    }

    /// Returns the left edge of the rectangle.
    pub fn left(&self) -> (r: T)
        ensures
            r.as_int() == self@.left,
    {
        self.l
    }

    /// Returns the right edge of the rectangle.
    pub fn right(&self) -> (r: T)
        ensures
            r.as_int() == self@.right,
    {
        self.r
    }

    /// Returns the bottom edge of the rectangle.
    pub fn bottom(&self) -> (r: T)
        ensures
            r.as_int() == self@.bottom,
    {
        self.b
    }

    /// Returns the top-left corner of the rectangle.
    pub fn top_left(&self) -> (r: Pos<T>)
        ensures
            r@ == (self@.left, self@.top),
    {
        Pos::new(self.l, self.t)
    }

    /// Returns the top-right corner of the rectangle.
    pub fn top_right(&self) -> (r: Pos<T>)
        ensures
            r@ == (self@.right, self@.top),
    {
        Pos::new(self.r, self.t)
    }

    /// Returns the bottom-right corner of the rectangle.
    pub fn bottom_right(&self) -> (r: Pos<T>)
        ensures
            r@ == (self@.right, self@.bottom),
    {
        Pos::new(self.r, self.b)
    }

    /// Returns the bottom-left corner of the rectangle.
    pub fn bottom_left(&self) -> (r: Pos<T>)
        ensures
            r@ == (self@.left, self@.bottom),
    {
        Pos::new(self.l, self.b)
    }

    /// Returns the width of the rectangle.
    pub fn width(&self) -> (r: usize)
        requires
            self.sized(),
        ensures
            r == self@.width(),
    {
        proof {
            T::lemma_limits();
            T::lemma_sub(self.r, self.l);
        }
        (self.r - self.l).to_usize()
    }

    /// Returns the height of the rectangle.
    pub fn height(&self) -> (r: usize)
        requires
            self.sized(),
        ensures
            r == self@.height(),
    {
        proof {
            T::lemma_limits();
            T::lemma_sub(self.b, self.t);
        }
        (self.b - self.t).to_usize()
    }

    /// Returns whether the rectangle is empty.
    pub fn is_empty(&self) -> (r: bool)
        requires
            self.sized(),
        ensures
            r == self@.is_empty(),
    {
        self.width() == 0 || self.height() == 0
    }

    /// Returns the area of the rectangle.
    pub fn area(&self) -> (r: usize)
        requires
            self.sized(),
            self@.area() <= usize::MAX,
        ensures
            r == self@.area(),
    {
        self.width() * self.height()
    }

    /// Returns whether the rectangle contains the given coordinates.
    pub fn contains(&self, x: T, y: T) -> (r: bool)
        ensures
            r == self@.contains((x.as_int(), y.as_int())),
    {
        proof {
            T::lemma_order(x, self.l);
            T::lemma_order(x, self.r);
            T::lemma_order(y, self.t);
            T::lemma_order(y, self.b);
        }
        x >= self.l && x < self.r && y >= self.t && y < self.b
    }

    /// Returns whether the rectangle contains the given position.
    pub fn contains_pos(&self, pos: Pos<T>) -> (r: bool)
        ensures
            r == self@.contains(pos@),
    {
        self.contains(pos.x, pos.y)
    }

    /// Returns whether the rectangle contains the given rectangle.
    pub fn contains_rect(&self, other: Rect<T>) -> (r: bool)
        ensures
            r == self@.contains_bounds(other@),
    {
        proof {
            T::lemma_order(self.l, other.l);
            T::lemma_order(self.r, other.r);
            T::lemma_order(self.t, other.t);
            T::lemma_order(self.b, other.b);
        }
        self.l <= other.l && self.r >= other.r && self.t <= other.t && self.b >= other.b
    }

    /// Returns the intersection of two rectangles.
    ///
    /// If the rectangles share no position, an empty rectangle at the origin
    /// is returned.
    #[must_use]
    pub fn intersect(&self, other: Rect<T>) -> (r: Rect<T>)
        ensures
            r@ == self@.intersect(other@),
    {
        proof {
            T::lemma_order(self.l, other.l);
            T::lemma_order(self.t, other.t);
            T::lemma_order(self.r, other.r);
            T::lemma_order(self.b, other.b);
        }
        let l = if self.l >= other.l { self.l } else { other.l };
        let t = if self.t >= other.t { self.t } else { other.t };
        let r = if self.r <= other.r { self.r } else { other.r };
        let b = if self.b <= other.b { self.b } else { other.b };
        proof {
            T::lemma_order(l, r);
            T::lemma_order(t, b);
        }
        if l < r && t < b {
            Rect { l, t, r, b }
        } else {
            Rect::empty()
        }
    }
}

impl<T: Int> Rect<T> {
    /// Returns the positions in the rectangle, in row-major order.
    ///
    /// ```txt
    /// (0, 0) (1, 0) (2, 0)
    /// (0, 1) (1, 1) (2, 1)
    /// ```
    pub fn into_iter_row_major(self) -> (r: Vec<Pos<T>>)
        requires
            self.sized(),
        ensures
            pos_views(r@) == row_major_positions(self@),
    {
        RowMajor::positions(self)
    }

    /// Returns the positions in the rectangle, in column-major order.
    ///
    /// ```txt
    /// (0, 0) (0, 1)
    /// (1, 0) (1, 1)
    /// (2, 0) (2, 1)
    /// ```
    pub fn into_iter_col_major(self) -> (r: Vec<Pos<T>>)
        requires
            self.sized(),
        ensures
            pos_views(r@) == col_major_positions(self@),
    {
        ColMajor::positions(self)
    }
}

impl<T: Int> Default for Rect<T> {
    fn default() -> (r: Self)
        ensures
            r@ == (Bounds { left: 0, top: 0, right: 0, bottom: 0 }),
    {
        Self::empty()
    }
}

impl<T: Int> HasSize for Rect<T> {
    open spec fn has_size(&self) -> bool {
        self.sized()
    }

    open spec fn spec_size(&self) -> Size {
        Size { width: self@.width() as usize, height: self@.height() as usize }
    }

    fn size(&self) -> (r: Size) {
        Size { width: self.width(), height: self.height() }
    }
}

impl<T: Int> core::ops::Add<Pos<T>> for Rect<T> {
    type Output = Self;

    fn add(self, rhs: Pos<T>) -> (r: Self) {
        proof {
            T::lemma_add(self.l, rhs.x);
            T::lemma_add(self.t, rhs.y);
            T::lemma_add(self.r, rhs.x);
            T::lemma_add(self.b, rhs.y);
            Self::lemma_of(self@.shifted(rhs@));
        }
        let r = Self {
            l: self.l + rhs.x,
            t: self.t + rhs.y,
            r: self.r + rhs.x,
            b: self.b + rhs.y,
        };
        proof {
            r.lemma_view(Self::of(self@.shifted(rhs@)));
        }
        r
    }
}

impl<T: Int> AddSpecImpl<Pos<T>> for Rect<T> {
    open spec fn obeys_add_spec() -> bool {
        true
    }

    open spec fn add_req(self, rhs: Pos<T>) -> bool {
        Self::holds(self@.shifted(rhs@))
    }

    open spec fn add_spec(self, rhs: Pos<T>) -> Self {
        Self::of(self@.shifted(rhs@))
    }
}

impl<T: Int> core::ops::AddAssign<Pos<T>> for Rect<T> {
    fn add_assign(&mut self, rhs: Pos<T>)
        requires
            Self::holds(old(self)@.shifted(rhs@)),
        ensures
            final(self)@ == old(self)@.shifted(rhs@),
    {
        proof {
            T::lemma_add(self.l, rhs.x);
            T::lemma_add(self.t, rhs.y);
            T::lemma_add(self.r, rhs.x);
            T::lemma_add(self.b, rhs.y);
        }
        self.l = self.l + rhs.x;
        self.t = self.t + rhs.y;
        self.r = self.r + rhs.x;
        self.b = self.b + rhs.y;
    }
}

impl<T: Int> core::ops::Sub<Pos<T>> for Rect<T> {
    type Output = Self;

    fn sub(self, rhs: Pos<T>) -> (r: Self) {
        proof {
            T::lemma_sub(self.l, rhs.x);
            T::lemma_sub(self.t, rhs.y);
            T::lemma_sub(self.r, rhs.x);
            T::lemma_sub(self.b, rhs.y);
            Self::lemma_of(self@.shifted((-rhs@.0, -rhs@.1)));
        }
        let r = Self {
            l: self.l - rhs.x,
            t: self.t - rhs.y,
            r: self.r - rhs.x,
            b: self.b - rhs.y,
        };
        proof {
            r.lemma_view(Self::of(self@.shifted((-rhs@.0, -rhs@.1))));
        }
        r
    }
}

impl<T: Int> SubSpecImpl<Pos<T>> for Rect<T> {
    open spec fn obeys_sub_spec() -> bool {
        true
    }

    open spec fn sub_req(self, rhs: Pos<T>) -> bool {
        Self::holds(self@.shifted((-rhs@.0, -rhs@.1)))
    }

    open spec fn sub_spec(self, rhs: Pos<T>) -> Self {
        Self::of(self@.shifted((-rhs@.0, -rhs@.1)))
    }
}

impl<T: Int> core::ops::SubAssign<Pos<T>> for Rect<T> {
    fn sub_assign(&mut self, rhs: Pos<T>)
        requires
            Self::holds(old(self)@.shifted((-rhs@.0, -rhs@.1))),
        ensures
            final(self)@ == old(self)@.shifted((-rhs@.0, -rhs@.1)),
    {
        proof {
            T::lemma_sub(self.l, rhs.x);
            T::lemma_sub(self.t, rhs.y);
            T::lemma_sub(self.r, rhs.x);
            T::lemma_sub(self.b, rhs.y);
        }
        self.l = self.l - rhs.x;
        self.t = self.t - rhs.y;
        self.r = self.r - rhs.x;
        self.b = self.b - rhs.y;
    }
}

impl<T: Int> core::ops::Mul<T> for Rect<T> {
    type Output = Self;

    fn mul(self, rhs: T) -> (r: Self) {
        proof {
            T::lemma_mul(self.l, rhs);
            T::lemma_mul(self.t, rhs);
            T::lemma_mul(self.r, rhs);
            T::lemma_mul(self.b, rhs);
            Self::lemma_of(self@.scaled(rhs.as_int()));
        }
        let r = Self { l: self.l * rhs, t: self.t * rhs, r: self.r * rhs, b: self.b * rhs };
        proof {
            r.lemma_view(Self::of(self@.scaled(rhs.as_int())));
        }
        r
    }
}

impl<T: Int> MulSpecImpl<T> for Rect<T> {
    open spec fn obeys_mul_spec() -> bool {
        true
    }

    open spec fn mul_req(self, rhs: T) -> bool {
        Self::holds(self@.scaled(rhs.as_int()))
    }

    open spec fn mul_spec(self, rhs: T) -> Self {
        Self::of(self@.scaled(rhs.as_int()))
    }
}

impl<T: Int> core::ops::MulAssign<T> for Rect<T> {
    fn mul_assign(&mut self, rhs: T)
        requires
            Self::holds(old(self)@.scaled(rhs.as_int())),
        ensures
            final(self)@ == old(self)@.scaled(rhs.as_int()),
    {
        proof {
            T::lemma_mul(self.l, rhs);
            T::lemma_mul(self.t, rhs);
            T::lemma_mul(self.r, rhs);
            T::lemma_mul(self.b, rhs);
        }
        self.l = self.l * rhs;
        self.t = self.t * rhs;
        self.r = self.r * rhs;
        self.b = self.b * rhs;
    }
}

impl<T: Int> core::ops::Div<T> for Rect<T> {
    type Output = Self;

    fn div(self, rhs: T) -> (r: Self) {
        proof {
            T::lemma_div(self.l, rhs);
            T::lemma_div(self.t, rhs);
            T::lemma_div(self.r, rhs);
            T::lemma_div(self.b, rhs);
        }
        let r = Self { l: self.l / rhs, t: self.t / rhs, r: self.r / rhs, b: self.b / rhs };
        proof {
            T::lemma_value(r.l, r.t);
            T::lemma_value(r.t, r.l);
            T::lemma_value(r.r, r.b);
            T::lemma_value(r.b, r.r);
            Self::lemma_of(self@.divided(rhs.as_int()));
            r.lemma_view(Self::of(self@.divided(rhs.as_int())));
        }
        r
    }
}

impl<T: Int> DivSpecImpl<T> for Rect<T> {
    open spec fn obeys_div_spec() -> bool {
        true
    }

    open spec fn div_req(self, rhs: T) -> bool {
        rhs.as_int() != 0 && Self::holds(self@.divided(rhs.as_int()))
    }

    open spec fn div_spec(self, rhs: T) -> Self {
        Self::of(self@.divided(rhs.as_int()))
    }
}

impl<T: Int> core::ops::DivAssign<T> for Rect<T> {
    fn div_assign(&mut self, rhs: T)
        requires
            rhs.as_int() != 0,
            Self::holds(old(self)@.divided(rhs.as_int())),
        ensures
            final(self)@ == old(self)@.divided(rhs.as_int()),
    {
        proof {
            T::lemma_div(self.l, rhs);
            T::lemma_div(self.t, rhs);
            T::lemma_div(self.r, rhs);
            T::lemma_div(self.b, rhs);
        }
        self.l = self.l / rhs;
        self.t = self.t / rhs;
        self.r = self.r / rhs;
        self.b = self.b / rhs;
    }
}

} // verus!

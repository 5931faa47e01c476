//! Sizes in 2D space.
use vstd::prelude::*;
use vstd::std_specs::ops::{AddSpecImpl, DivSpecImpl, MulSpecImpl, SubSpecImpl};

use crate::rect::{Bounds, Rect};

verus! {

/// Represents a size in 2D space, with `width` and `height`.
#[derive(Debug, Clone, Copy, PartialEq, Eq, Structural)]
pub struct Size {
    /// Width.
    pub width: usize,
    /// Height.
    pub height: usize,
}

impl Size {
    /// Creates a new size.
    #[must_use]
    pub fn new(width: usize, height: usize) -> (r: Self)
        ensures
            r == (Size { width, height }),
    {
        Self { width, height }
    }

    /// The number of cells of a `width` by `height` region.
    pub open spec fn spec_area(self) -> int {
        self.width * self.height
    }

    /// Returns the area of the size (width * height).
    #[must_use]
    pub fn area(&self) -> (r: usize)
        requires
            self.spec_area() <= usize::MAX,
        ensures
            r == self.spec_area(),
    {
        self.width * self.height
    }
}

impl core::ops::Add for Size {
    type Output = Self;

    fn add(self, other: Self) -> (r: Self) {
        Self { width: self.width + other.width, height: self.height + other.height }
    }
}

impl AddSpecImpl for Size {
    open spec fn obeys_add_spec() -> bool {
        true
    }

    open spec fn add_req(self, other: Self) -> bool {
        self.width + other.width <= usize::MAX && self.height + other.height <= usize::MAX
    }

    open spec fn add_spec(self, other: Self) -> Self {
        Size {
            width: (self.width + other.width) as usize,
            height: (self.height + other.height) as usize,
        }
    }
}

impl core::ops::AddAssign for Size {
    fn add_assign(&mut self, other: Self)
        requires
            old(self).width + other.width <= usize::MAX,
            old(self).height + other.height <= usize::MAX,
        ensures
            final(self).width == old(self).width + other.width,
            final(self).height == old(self).height + other.height,
    {
        self.width = self.width + other.width;
        self.height = self.height + other.height;
    }
}

impl core::ops::Sub for Size {
    type Output = Self;

    fn sub(self, other: Self) -> (r: Self) {
        Self { width: self.width - other.width, height: self.height - other.height }
    }
}

impl SubSpecImpl for Size {
    open spec fn obeys_sub_spec() -> bool {
        true
    }

    open spec fn sub_req(self, other: Self) -> bool {
        other.width <= self.width && other.height <= self.height
    }

    open spec fn sub_spec(self, other: Self) -> Self {
        Size {
            width: (self.width - other.width) as usize,
            height: (self.height - other.height) as usize,
        }
    }
}

impl core::ops::SubAssign for Size {
    fn sub_assign(&mut self, other: Self)
        requires
            other.width <= old(self).width,
            other.height <= old(self).height,
        ensures
            final(self).width == old(self).width - other.width,
            final(self).height == old(self).height - other.height,
    {
        self.width = self.width - other.width;
        self.height = self.height - other.height;
    }
}

impl core::ops::Mul for Size {
    type Output = Self;

    fn mul(self, other: Self) -> (r: Self) {
        Self { width: self.width * other.width, height: self.height * other.height }
    }
}

impl MulSpecImpl for Size {
    open spec fn obeys_mul_spec() -> bool {
        true
    }

    open spec fn mul_req(self, other: Self) -> bool {
        self.width * other.width <= usize::MAX && self.height * other.height <= usize::MAX
    }

    open spec fn mul_spec(self, other: Self) -> Self {
        Size {
            width: (self.width * other.width) as usize,
            height: (self.height * other.height) as usize,
        }
    }
}

impl core::ops::Mul<usize> for Size {
    type Output = Self;

    fn mul(self, scalar: usize) -> (r: Self) {
        Self { width: self.width * scalar, height: self.height * scalar }
    }
}

impl MulSpecImpl<usize> for Size {
    open spec fn obeys_mul_spec() -> bool {
        true
    }

    open spec fn mul_req(self, scalar: usize) -> bool {
        self.width * scalar <= usize::MAX && self.height * scalar <= usize::MAX
    }

    open spec fn mul_spec(self, scalar: usize) -> Self {
        Size { width: (self.width * scalar) as usize, height: (self.height * scalar) as usize }
    }
}

impl core::ops::MulAssign for Size {
    fn mul_assign(&mut self, other: Self)
        requires
            old(self).width * other.width <= usize::MAX,
            old(self).height * other.height <= usize::MAX,
        ensures
            final(self).width == old(self).width * other.width,
            final(self).height == old(self).height * other.height,
    {
        self.width = self.width * other.width;
        self.height = self.height * other.height;
    }
}

impl core::ops::MulAssign<usize> for Size {
    fn mul_assign(&mut self, scalar: usize)
        requires
            old(self).width * scalar <= usize::MAX,
            old(self).height * scalar <= usize::MAX,
        ensures
            final(self).width == old(self).width * scalar,
            final(self).height == old(self).height * scalar,
    {
        self.width = self.width * scalar;
        self.height = self.height * scalar;
    }
}

impl core::ops::Div for Size {
    type Output = Self;

    fn div(self, other: Self) -> (r: Self) {
        Self { width: self.width / other.width, height: self.height / other.height }
    }
}

impl DivSpecImpl for Size {
    open spec fn obeys_div_spec() -> bool {
        true
    }

    open spec fn div_req(self, other: Self) -> bool {
        other.width != 0 && other.height != 0
    }

    open spec fn div_spec(self, other: Self) -> Self {
        Size { width: self.width / other.width, height: self.height / other.height }
    }
}

impl core::ops::Div<usize> for Size {
    type Output = Self;

    fn div(self, scalar: usize) -> (r: Self) {
        Self { width: self.width / scalar, height: self.height / scalar }
    }
}

impl DivSpecImpl<usize> for Size {
    open spec fn obeys_div_spec() -> bool {
        true
    }

    open spec fn div_req(self, scalar: usize) -> bool {
        scalar != 0
    }

    open spec fn div_spec(self, scalar: usize) -> Self {
        Size { width: self.width / scalar, height: self.height / scalar }
    }
}

impl core::ops::DivAssign for Size {
    fn div_assign(&mut self, other: Self)
        requires
            other.width != 0,
            other.height != 0,
        ensures
            final(self).width == old(self).width / other.width,
            final(self).height == old(self).height / other.height,
    {
        self.width = self.width / other.width;
        self.height = self.height / other.height;
    }
}

impl core::ops::DivAssign<usize> for Size {
    fn div_assign(&mut self, scalar: usize)
        requires
            scalar != 0,
        ensures
            final(self).width == old(self).width / scalar,
            final(self).height == old(self).height / scalar,
    {
        self.width = self.width / scalar;
        self.height = self.height / scalar;
    }
}

/// A type that has a [`Size`].
pub trait HasSize {
    /// Whether the object's size can be measured.
    spec fn has_size(&self) -> bool;

    /// The size of the object.
    spec fn spec_size(&self) -> Size;

    /// Returns the size of the object.
    fn size(&self) -> (r: Size)
        requires
            self.has_size(),
        ensures
            r == self.spec_size(),
    ;

    /// Returns the width of the object.
    fn width(&self) -> (r: usize)
        requires
            self.has_size(),
        ensures
            r == self.spec_size().width,
    {
        self.size().width
    }

    /// Returns the height of the object.
    fn height(&self) -> (r: usize)
        requires
            self.has_size(),
        ensures
            r == self.spec_size().height,
    {
        self.size().height
    }

    /// Returns a rectangle at the origin where the size is the object's size.
    fn to_rect(&self) -> (r: Rect<usize>)
        requires
            self.has_size(),
        ensures
            r@ == Bounds::at(0, 0, self.spec_size()),
    {
        let size = self.size();
        Rect::from_ltwh(0, 0, size.width, size.height)
    }
}

impl HasSize for Size {
    open spec fn has_size(&self) -> bool {
        true
    }

    open spec fn spec_size(&self) -> Size {
        *self
    }

    fn size(&self) -> (r: Size) {
        *self
    }
}

impl<'a, T: HasSize> HasSize for &'a T {
    open spec fn has_size(&self) -> bool {
        (**self).has_size()
    }

    open spec fn spec_size(&self) -> Size {
        (**self).spec_size()
    }

    fn size(&self) -> (r: Size) {
        (**self).size()
    }
}

impl<'a, T: HasSize> HasSize for &'a mut T {
    open spec fn has_size(&self) -> bool {
        (**self).has_size()
    }

    open spec fn spec_size(&self) -> Size {
        (**self).spec_size()
    }

    fn size(&self) -> (r: Size) {
        (**self).size()
    }
}

} // verus!

//! Positions in 2D space.
use vstd::prelude::*;
use vstd::std_specs::convert::*;
use vstd::std_specs::ops::{AddSpecImpl, MulSpecImpl, NegSpecImpl, SubSpecImpl};

use core::cmp::Ordering;
use core::ops::Neg;
use vstd::std_specs::cmp::PartialOrdSpecImpl;

use crate::integer::{Int, SignedInt};
use crate::size::Size;

verus! {

/// A 2-dimensional point with integer precision.
///
/// Positions are ordered by `x` first and by `y` second.
#[derive(Debug, Copy, Clone, PartialEq, Eq, Ord)]
pub struct Pos<T: Int = i32> {
    /// The x-coordinate of the point.
    pub x: T,
    /// The y-coordinate of the point.
    pub y: T,
}

/// How `a` stands to `b` where pairs are ordered by their first parts, and by
/// their second parts where the first are the same.
pub open spec fn pair_order(a: (int, int), b: (int, int)) -> Ordering {
    if a.0 < b.0 || (a.0 == b.0 && a.1 < b.1) {
        Ordering::Less
    } else if a == b {
        Ordering::Equal
    } else {
        Ordering::Greater
    }
}

impl<T: Int> PartialOrd for Pos<T> {
    fn partial_cmp(&self, other: &Self) -> (r: Option<Ordering>) {
        proof {
            T::lemma_order(self.x, other.x);
            T::lemma_order(self.y, other.y);
        }
        if self.x < other.x {
            Some(Ordering::Less)
        } else if self.x > other.x {
            Some(Ordering::Greater)
        } else if self.y < other.y {
            Some(Ordering::Less)
        } else if self.y > other.y {
            Some(Ordering::Greater)
        } else {
            Some(Ordering::Equal)
        }
    }
}

impl<T: Int> PartialOrdSpecImpl for Pos<T> {
    open spec fn obeys_partial_cmp_spec() -> bool {
        true
    }

    open spec fn partial_cmp_spec(&self, other: &Self) -> Option<Ordering> {
        Some(pair_order(self@, other@))
    }
}

impl<T: Int> View for Pos<T> {
    type V = (int, int);

    /// The pair of integers `(x, y)` that the position stands for.
    open spec fn view(&self) -> (int, int) {
        (self.x.as_int(), self.y.as_int())
    }
}

impl<T: Int> Pos<T> {
    /// The position that stands for `(x, y)`, where `T` can hold both.
    pub open spec fn at(x: int, y: int) -> Self {
        Pos { x: T::from_int(x), y: T::from_int(y) }
    }

    /// Whether `T` can hold both `x` and `y`.
    pub open spec fn holds(x: int, y: int) -> bool {
        &&& T::min_int() <= x <= T::max_int()
        &&& T::min_int() <= y <= T::max_int()
    }

    /// A position is the one that `at` gives for its own coordinates, and
    /// positions with the same view are equal.
    pub proof fn lemma_view(self, other: Self)
        ensures
            Self::holds(self@.0, self@.1),
            Self::at(self@.0, self@.1) == self,
            self@ == other@ ==> self == other,
    {
        T::lemma_value(self.x, other.x);
        T::lemma_value(self.y, other.y);
    }

    /// The view of `at(x, y)` is `(x, y)` where `T` can hold both.
    pub proof fn lemma_at(x: int, y: int)
        requires
            Self::holds(x, y),
        ensures
            Self::at(x, y)@ == (x, y),
    {
        T::lemma_from_int(x);
        T::lemma_from_int(y);
    }

    /// The origin, `(0, 0)`.
    pub fn origin() -> (r: Self)
        ensures
            r@ == (0int, 0int),
    {
        proof {
            T::lemma_limits();
        }
        Self { x: T::ZERO, y: T::ZERO }
    }

    /// The position whose coordinates are both the least value of `T`.
    pub fn min_pos() -> (r: Self)
        ensures
            r@ == (T::min_int(), T::min_int()),
    {
        proof {
            T::lemma_limits();
        }
        Self { x: T::MIN, y: T::MIN }
    }

    /// The position whose coordinates are both the greatest value of `T`.
    pub fn max_pos() -> (r: Self)
        ensures
            r@ == (T::max_int(), T::max_int()),
    {
        proof {
            T::lemma_limits();
        }
        Self { x: T::MAX, y: T::MAX }
    }

    /// The unit step along the x-axis, `(1, 0)`.
    pub fn unit_x() -> (r: Self)
        ensures
            r@ == (1int, 0int),
    {
        proof {
            T::lemma_limits();
        }
        Self { x: T::ONE, y: T::ZERO }
    }

    /// The unit step along the y-axis, `(0, 1)`.
    pub fn unit_y() -> (r: Self)
        ensures
            r@ == (0int, 1int),
    {
        proof {
            T::lemma_limits();
        }
        Self { x: T::ZERO, y: T::ONE }
    }

    /// Creates a new position with the given x and y coordinates.
    #[must_use]
    pub fn new(x: T, y: T) -> (r: Self)
        ensures
            r == (Pos { x, y }),
    {
        Self { x, y }
    }

    /// Whether both coordinates can be the extents of a [`Size`].
    pub open spec fn is_size(self) -> bool {
        &&& 0 <= self@.0 <= usize::MAX
        &&& 0 <= self@.1 <= usize::MAX
    }

    /// Converts the position to a size: `x` becomes the width, `y` the height.
    pub fn into_size(self) -> (r: Size)
        requires
            self.is_size(),
        ensures
            r.width == self@.0,
            r.height == self@.1,
    {
        Size { width: self.x.to_usize(), height: self.y.to_usize() }
    }
}

impl<T: SignedInt> Pos<T> {
    /// The unit step against the x-axis, `(-1, 0)`.
    pub fn neg_unit_x() -> (r: Self)
        ensures
            r@ == (-1int, 0int),
    {
        proof {
            T::lemma_limits();
            T::lemma_neg(T::ZERO);
        }
        Self { x: T::NEG_ONE, y: T::ZERO }
    }

    /// The unit step against the y-axis, `(0, -1)`.
    pub fn neg_unit_y() -> (r: Self)
        ensures
            r@ == (0int, -1int),
    {
        proof {
            T::lemma_limits();
            T::lemma_neg(T::ZERO);
        }
        Self { x: T::ZERO, y: T::NEG_ONE }
    }
}

impl<T: Int> Default for Pos<T> {
    fn default() -> (r: Self)
        ensures
            r@ == (0int, 0int),
    {
        Self::origin()
    }
}

impl<T: SignedInt> core::ops::Neg for Pos<T> {
    type Output = Self;

    fn neg(self) -> (r: Self) {
        proof {
            T::lemma_neg(self.x);
            T::lemma_neg(self.y);
        }
        let r = Self { x: self.x.neg(), y: self.y.neg() };
        proof {
            r.lemma_view(r);
            Self::lemma_at(-self@.0, -self@.1);
            r.lemma_view(Self::at(-self@.0, -self@.1));
        }
        r
    }
}

impl<T: SignedInt> NegSpecImpl for Pos<T> {
    open spec fn obeys_neg_spec() -> bool {
        true
    }

    open spec fn neg_req(self) -> bool {
        self@.0 != T::min_int() && self@.1 != T::min_int()
    }

    open spec fn neg_spec(self) -> Self {
        Pos::at(-self@.0, -self@.1)
    }
}

impl<T: Int> core::ops::Add for Pos<T> {
    type Output = Self;

    fn add(self, rhs: Self) -> (r: Self) {
        proof {
            T::lemma_add(self.x, rhs.x);
            T::lemma_add(self.y, rhs.y);
        }
        let r = Self { x: self.x + rhs.x, y: self.y + rhs.y };
        proof {
            Self::lemma_at(self@.0 + rhs@.0, self@.1 + rhs@.1);
            r.lemma_view(Self::at(self@.0 + rhs@.0, self@.1 + rhs@.1));
        }
        r
    }
}

impl<T: Int> AddSpecImpl for Pos<T> {
    open spec fn obeys_add_spec() -> bool {
        true
    }

    open spec fn add_req(self, rhs: Self) -> bool {
        Self::holds(self@.0 + rhs@.0, self@.1 + rhs@.1)
    }

    open spec fn add_spec(self, rhs: Self) -> Self {
        Pos::at(self@.0 + rhs@.0, self@.1 + rhs@.1)
    }
}

impl<T: Int> core::ops::AddAssign for Pos<T> {
    fn add_assign(&mut self, rhs: Self)
        requires
            Self::holds(old(self)@.0 + rhs@.0, old(self)@.1 + rhs@.1),
        ensures
            final(self)@ == (old(self)@.0 + rhs@.0, old(self)@.1 + rhs@.1),
    {
        proof {
            T::lemma_add(self.x, rhs.x);
            T::lemma_add(self.y, rhs.y);
        }
        self.x = self.x + rhs.x;
        self.y = self.y + rhs.y;
    }
}

impl<T: Int> core::ops::Sub for Pos<T> {
    type Output = Self;

    fn sub(self, rhs: Self) -> (r: Self) {
        proof {
            T::lemma_sub(self.x, rhs.x);
            T::lemma_sub(self.y, rhs.y);
        }
        let r = Self { x: self.x - rhs.x, y: self.y - rhs.y };
        proof {
            Self::lemma_at(self@.0 - rhs@.0, self@.1 - rhs@.1);
            r.lemma_view(Self::at(self@.0 - rhs@.0, self@.1 - rhs@.1));
        }
        r
    }
}

impl<T: Int> SubSpecImpl for Pos<T> {
    open spec fn obeys_sub_spec() -> bool {
        true
    }

    open spec fn sub_req(self, rhs: Self) -> bool {
        Self::holds(self@.0 - rhs@.0, self@.1 - rhs@.1)
    }

    open spec fn sub_spec(self, rhs: Self) -> Self {
        Pos::at(self@.0 - rhs@.0, self@.1 - rhs@.1)
    }
}

impl<T: Int> core::ops::SubAssign for Pos<T> {
    fn sub_assign(&mut self, rhs: Self)
        requires
            Self::holds(old(self)@.0 - rhs@.0, old(self)@.1 - rhs@.1),
        ensures
            final(self)@ == (old(self)@.0 - rhs@.0, old(self)@.1 - rhs@.1),
    {
        proof {
            T::lemma_sub(self.x, rhs.x);
            T::lemma_sub(self.y, rhs.y);
        }
        self.x = self.x - rhs.x;
        self.y = self.y - rhs.y;
    }
}

impl<T: Int> core::ops::Mul<T> for Pos<T> {
    type Output = Self;

    fn mul(self, rhs: T) -> (r: Self) {
        proof {
            T::lemma_mul(self.x, rhs);
            T::lemma_mul(self.y, rhs);
        }
        let r = Self { x: self.x * rhs, y: self.y * rhs };
        proof {
            Self::lemma_at(self@.0 * rhs.as_int(), self@.1 * rhs.as_int());
            r.lemma_view(Self::at(self@.0 * rhs.as_int(), self@.1 * rhs.as_int()));
        }
        r
    }
}

impl<T: Int> MulSpecImpl<T> for Pos<T> {
    open spec fn obeys_mul_spec() -> bool {
        true
    }

    open spec fn mul_req(self, rhs: T) -> bool {
        Self::holds(self@.0 * rhs.as_int(), self@.1 * rhs.as_int())
    }

    open spec fn mul_spec(self, rhs: T) -> Self {
        Pos::at(self@.0 * rhs.as_int(), self@.1 * rhs.as_int())
    }
}

impl<T: Int> core::ops::MulAssign<T> for Pos<T> {
    fn mul_assign(&mut self, rhs: T)
        requires
            Self::holds(old(self)@.0 * rhs.as_int(), old(self)@.1 * rhs.as_int()),
        ensures
            final(self)@ == (old(self)@.0 * rhs.as_int(), old(self)@.1 * rhs.as_int()),
    {
        proof {
            T::lemma_mul(self.x, rhs);
            T::lemma_mul(self.y, rhs);
        }
        self.x = self.x * rhs;
        self.y = self.y * rhs;
    }
}

impl<T: Int> From<(T, T)> for Pos<T> {
    fn from(value: (T, T)) -> (r: Self) {
        Self::new(value.0, value.1)
    }
}

impl<T: Int> FromSpecImpl<(T, T)> for Pos<T> {
    open spec fn obeys_from_spec() -> bool {
        true
    }

    open spec fn from_spec(value: (T, T)) -> Self {
        Pos { x: value.0, y: value.1 }
    }
}

impl<T: Int> From<Pos<T>> for (T, T) {
    fn from(pos: Pos<T>) -> (r: Self) {
        (pos.x, pos.y)
    }
}

impl<T: Int> FromSpecImpl<Pos<T>> for (T, T) {
    open spec fn obeys_from_spec() -> bool {
        true
    }

    open spec fn from_spec(pos: Pos<T>) -> Self {
        (pos.x, pos.y)
    }
}

impl<T: Int> From<[T; 2]> for Pos<T> {
    fn from(value: [T; 2]) -> (r: Self) {
        Self::new(value[0], value[1])
    }
}

impl<T: Int> FromSpecImpl<[T; 2]> for Pos<T> {
    open spec fn obeys_from_spec() -> bool {
        true
    }

    open spec fn from_spec(value: [T; 2]) -> Self {
        Pos { x: value[0], y: value[1] }
    }
}

impl<T: Int> From<Pos<T>> for [T; 2] {
    fn from(pos: Pos<T>) -> (r: Self) {
        [pos.x, pos.y]
    }
}

impl<T: Int> FromSpecImpl<Pos<T>> for [T; 2] {
    open spec fn obeys_from_spec() -> bool {
        true
    }

    open spec fn from_spec(pos: Pos<T>) -> Self {
        [pos.x, pos.y]
    }
}

/// An error that occurs when converting a position to another type.
#[derive(Debug, Clone, Copy, PartialEq, Eq, Structural)]
pub enum TryFromPosError {
    /// A coordinate is outside of what the target type can hold.
    OutOfRange,
}

/// Fallible conversion from a [`Pos`] type to another type.
pub trait TryFromPos<T: Int>: Sized {
    /// What the conversion of `value` gives.
    spec fn try_from_pos_spec(value: Pos<T>) -> Result<Self, TryFromPosError>;

    /// Tries to convert a position to another type.
    fn try_from_pos(value: Pos<T>) -> (r: Result<Self, TryFromPosError>)
        ensures
            r == Self::try_from_pos_spec(value),
    ;
}

/// Fallible conversion from a type to a [`Pos`] type.
pub trait TryIntoPos<T: Int>: Sized {
    /// What the conversion of `self` gives.
    spec fn try_into_pos_spec(self) -> Result<Pos<T>, TryFromPosError>;

    /// Tries to convert a type to a position.
    fn try_into_pos(self) -> (r: Result<Pos<T>, TryFromPosError>)
        ensures
            r == self.try_into_pos_spec(),
    ;
}

impl<T, U> TryIntoPos<U> for Pos<T> where Pos<U>: TryFromPos<T>, U: Int, T: Int {
    open spec fn try_into_pos_spec(self) -> Result<Pos<U>, TryFromPosError> {
        Pos::<U>::try_from_pos_spec(self)
    }

    fn try_into_pos(self) -> (r: Result<Pos<U>, TryFromPosError>) {
        Pos::<U>::try_from_pos(self)
    }
}

/// Converts one integer to another integer type, if that type can hold it.
pub fn convert_int<S: Int, T: Int>(value: S) -> (r: Option<T>)
    ensures
        T::min_int() <= value.as_int() <= T::max_int() ==> r == Some(T::from_int(value.as_int())),
        !(T::min_int() <= value.as_int() <= T::max_int()) ==> r.is_none(),
{
    proof {
        S::lemma_limits();
        T::lemma_limits();
        S::lemma_value(value, value);
    }
    let converted = match value.checked_to_u128() {
        Some(wide) => T::checked_from_u128(wide),
        None => match value.checked_to_i128() {
            Some(wide) => T::checked_from_i128(wide),
            None => None,
        },
    };
    proof {
        if let Some(v) = converted {
            T::lemma_value(v, v);
        }
    }
    converted
}

impl<S: Int, T: Int> TryFromPos<S> for Pos<T> {
    open spec fn try_from_pos_spec(value: Pos<S>) -> Result<Self, TryFromPosError> {
        if Self::holds(value@.0, value@.1) {
            Ok(Pos::at(value@.0, value@.1))
        } else {
            Err(TryFromPosError::OutOfRange)
        }
    }

    fn try_from_pos(value: Pos<S>) -> (r: Result<Self, TryFromPosError>) {
        match convert_int::<S, T>(value.x) {
            Some(x) => match convert_int::<S, T>(value.y) {
                Some(y) => Ok(Pos { x, y }),
                None => Err(TryFromPosError::OutOfRange),
            },
            None => Err(TryFromPosError::OutOfRange),
        }
    }
}

} // verus!

//! The integer types that coordinates can be made of.
//!
//! [`Int`] is implemented by all of Rust's primitive integer types. Besides the
//! conversions to and from `usize`, it ties each type to the mathematical
//! integers: every value has an [`Int::as_int`], and the laws of the trait say
//! what the arithmetic and comparison operators do to it.
use vstd::prelude::*;
use vstd::std_specs::cmp::*;
use vstd::std_specs::ops::*;

verus! {

/// Quotient of `a` by `b`, rounded towards zero, as the `/` of the primitive
/// integer types computes it.
pub open spec fn trunc_div(a: int, b: int) -> int {
    if a >= 0 {
        a / b
    } else {
        -((-a) / b)
    }
}

/// Remainder of `a` by `b` with the sign of `a`, as the `%` of the primitive
/// integer types computes it.
pub open spec fn trunc_rem(a: int, b: int) -> int {
    if a >= 0 {
        a % b
    } else {
        -((-a) % b)
    }
}

/// `v` limited to `0 ..= max`.
pub open spec fn clamp_to(v: int, max: int) -> int {
    if v < 0 {
        0
    } else if v > max {
        max
    } else {
        v
    }
}

/// How far the quotient and the remainder of a division that rounds towards
/// zero can lie from zero.
pub proof fn lemma_trunc_bounds(a: int, b: int)
    requires
        b != 0,
    ensures
        a >= 0 ==> -a <= trunc_div(a, b) <= a,
        a < 0 ==> a <= trunc_div(a, b) <= -a,
        a < 0 && trunc_div(a, b) == -a ==> b == -1,
        b == -1 ==> trunc_div(a, b) == -a,
        a >= 0 ==> 0 <= trunc_rem(a, b) < (if b > 0 { b } else { -b }),
        a < 0 ==> (if b > 0 { -b } else { b }) < trunc_rem(a, b) <= 0,
{
    let n = if a >= 0 { a } else { -a };
    assert(-n <= n / b <= n && (n > 0 && n / b == -n ==> b == -1) && (b == -1 ==> n / b == -n)
        && 0 <= n % b < (if b > 0 { b } else { -b })) by (nonlinear_arith)
        requires
            n >= 0,
            b != 0,
    ;
}

/// Generic trait for the built-in Rust integer types (e.g. `u8`, `u32`, `i64`, `isize`, ...).
///
/// The proof functions are the laws that an implementation has to obey; generic
/// code calls them to learn what an operator did.
pub trait Int:
    Sized
    + Copy
    + PartialEq
    + Eq
    + PartialOrd
    + Ord
    + core::ops::Add<Output = Self>
    + core::ops::Sub<Output = Self>
    + core::ops::Mul<Output = Self>
    + core::ops::Div<Output = Self>
    + core::ops::Rem<Output = Self>
    + core::ops::Not<Output = Self>
    + core::ops::BitAnd<Output = Self>
    + core::ops::BitOr<Output = Self>
    + core::ops::BitXor<Output = Self>
    + core::ops::Shl<Output = Self>
    + core::ops::Shr<Output = Self>
{
    /// The mathematical integer that `self` stands for.
    spec fn as_int(self) -> int;

    /// The value that stands for `i`, where the type can hold `i`.
    spec fn from_int(i: int) -> Self;

    /// The least integer that the type can hold.
    spec fn min_int() -> int;

    /// The greatest integer that the type can hold.
    spec fn max_int() -> int;

    /// The integer value of `0`.
    const ZERO: Self;

    /// The integer value of `1`.
    const ONE: Self;

    /// The minimum value of the integer type.
    const MIN: Self;

    /// The maximum value of the integer type.
    const MAX: Self;

    /// Converts the value of `self` to a [`usize`].
    ///
    /// The value must be representable by a [`usize`].
    fn to_usize(&self) -> (r: usize)
        requires
            0 <= self.as_int() <= usize::MAX,
        ensures
            r == self.as_int(),
    ;

    /// Converts the value of `self` to a [`usize`].
    ///
    /// If the value cannot be represented by a [`usize`], then it is clamped.
    fn saturating_to_usize(&self) -> (r: usize)
        ensures
            r == clamp_to(self.as_int(), usize::MAX as int),
    ;

    /// Converts the value of `self` to a [`usize`].
    ///
    /// If the value cannot be represented by a [`usize`], then [`None`] is returned.
    fn checked_to_usize(&self) -> (r: Option<usize>)
        ensures
            0 <= self.as_int() <= usize::MAX ==> r == Some(self.as_int() as usize),
            !(0 <= self.as_int() <= usize::MAX) ==> r.is_none(),
    ;

    /// Converts a [`usize`] to the integer type `Self`.
    ///
    /// The value must be representable by `Self`.
    fn from_usize(value: usize) -> (r: Self)
        requires
            value <= Self::max_int(),
        ensures
            r.as_int() == value,
    ;

    /// Converts a [`usize`] to the integer type `Self`.
    ///
    /// If the value cannot be represented by `Self`, then it is clamped to the maximum value of
    /// `Self`.
    fn saturating_from_usize(value: usize) -> (r: Self)
        ensures
            r.as_int() == clamp_to(value as int, Self::max_int()),
    ;

    /// Converts a [`usize`] to the integer type `Self`.
    ///
    /// If the value cannot be represented by `Self`, then [`None`] is returned.
    fn checked_from_usize(value: usize) -> (r: Option<Self>)
        ensures
            value <= Self::max_int() ==> r.is_some() && r.unwrap().as_int() == value,
            value > Self::max_int() ==> r.is_none(),
    ;

    /// Converts the value of `self` to an [`i128`].
    ///
    /// If the value cannot be represented by an [`i128`], then [`None`] is returned.
    fn checked_to_i128(&self) -> (r: Option<i128>)
        ensures
            self.as_int() <= i128::MAX ==> r == Some(self.as_int() as i128),
            self.as_int() > i128::MAX ==> r.is_none(),
    ;

    /// Converts an [`i128`] to the integer type `Self`.
    ///
    /// If the value cannot be represented by `Self`, then [`None`] is returned.
    fn checked_from_i128(value: i128) -> (r: Option<Self>)
        ensures
            Self::min_int() <= value <= Self::max_int() ==> r.is_some() && r.unwrap().as_int()
                == value,
            !(Self::min_int() <= value <= Self::max_int()) ==> r.is_none(),
    ;

    /// Converts the value of `self` to a [`u128`].
    ///
    /// If the value is negative, then [`None`] is returned.
    fn checked_to_u128(&self) -> (r: Option<u128>)
        ensures
            self.as_int() >= 0 ==> r == Some(self.as_int() as u128),
            self.as_int() < 0 ==> r.is_none(),
    ;

    /// Converts a [`u128`] to the integer type `Self`.
    ///
    /// If the value cannot be represented by `Self`, then [`None`] is returned.
    fn checked_from_u128(value: u128) -> (r: Option<Self>)
        ensures
            value <= Self::max_int() ==> r.is_some() && r.unwrap().as_int() == value,
            value > Self::max_int() ==> r.is_none(),
    ;

    /// The four constants are what their names say, and the type holds at
    /// least the integers of an `i8` that are not negative.
    proof fn lemma_limits()
        ensures
            Self::ZERO.as_int() == 0,
            Self::ONE.as_int() == 1,
            Self::MIN.as_int() == Self::min_int(),
            Self::MAX.as_int() == Self::max_int(),
            i128::MIN <= Self::min_int() <= 0,
            127 <= Self::max_int() <= u128::MAX,
    ;

    /// Every value lies within the limits of its type, and two values that
    /// stand for the same integer are the same value.
    proof fn lemma_value(a: Self, b: Self)
        ensures
            Self::min_int() <= a.as_int() <= Self::max_int(),
            a.as_int() == b.as_int() ==> a == b,
            Self::from_int(a.as_int()) == a,
    ;

    /// Every integer within the limits is the value of its `from_int`.
    proof fn lemma_from_int(i: int)
        requires
            Self::min_int() <= i <= Self::max_int(),
        ensures
            Self::from_int(i).as_int() == i,
    ;

    /// `a + b` is allowed exactly when the sum fits, and then it is the sum.
    proof fn lemma_add(a: Self, b: Self)
        ensures
            Self::obeys_add_spec(),
            a.add_req(b) <==> Self::min_int() <= a.as_int() + b.as_int() <= Self::max_int(),
            a.add_req(b) ==> a.add_spec(b).as_int() == a.as_int() + b.as_int(),
    ;

    /// `a - b` is allowed exactly when the difference fits, and then it is the difference.
    proof fn lemma_sub(a: Self, b: Self)
        ensures
            Self::obeys_sub_spec(),
            a.sub_req(b) <==> Self::min_int() <= a.as_int() - b.as_int() <= Self::max_int(),
            a.sub_req(b) ==> a.sub_spec(b).as_int() == a.as_int() - b.as_int(),
    ;

    /// `a * b` is allowed exactly when the product fits, and then it is the product.
    proof fn lemma_mul(a: Self, b: Self)
        ensures
            Self::obeys_mul_spec(),
            a.mul_req(b) <==> Self::min_int() <= a.as_int() * b.as_int() <= Self::max_int(),
            a.mul_req(b) ==> a.mul_spec(b).as_int() == a.as_int() * b.as_int(),
    ;

    /// `a / b` is allowed exactly when `b` is not zero and the quotient fits,
    /// and then it is the quotient rounded towards zero.
    proof fn lemma_div(a: Self, b: Self)
        ensures
            Self::obeys_div_spec(),
            a.div_req(b) <==> b.as_int() != 0 && trunc_div(a.as_int(), b.as_int())
                <= Self::max_int(),
            a.div_req(b) ==> a.div_spec(b).as_int() == trunc_div(a.as_int(), b.as_int()),
    ;

    /// `a % b` is allowed exactly when `a / b` is, and then it is the remainder
    /// that has the sign of `a`.
    proof fn lemma_rem(a: Self, b: Self)
        ensures
            Self::obeys_rem_spec(),
            a.rem_req(b) <==> b.as_int() != 0 && trunc_div(a.as_int(), b.as_int())
                <= Self::max_int(),
            a.rem_req(b) ==> a.rem_spec(b).as_int() == trunc_rem(a.as_int(), b.as_int()),
    ;

    /// The comparison operators compare the integers that the values stand for.
    proof fn lemma_order(a: Self, b: Self)
        ensures
            Self::obeys_eq_spec(),
            Self::obeys_partial_cmp_spec(),
            a.eq_spec(&b) <==> a.as_int() == b.as_int(),
            a.is_lt(&b) <==> a.as_int() < b.as_int(),
            a.is_le(&b) <==> a.as_int() <= b.as_int(),
            a.is_gt(&b) <==> a.as_int() > b.as_int(),
            a.is_ge(&b) <==> a.as_int() >= b.as_int(),
    ;
}

/// Generic trait for the built-in Rust signed integer types (e.g. `i8`, `i32`, `isize`, ...).
pub trait SignedInt: Int + core::ops::Neg<Output = Self> {
    /// The negative value of `1`.
    const NEG_ONE: Self;

    /// `NEG_ONE` is `-1`; `-a` is allowed for every value but the least, and
    /// then it is the negation.
    proof fn lemma_neg(a: Self)
        ensures
            Self::NEG_ONE.as_int() == -1,
            Self::obeys_neg_spec(),
            a.neg_req() <==> a.as_int() != Self::min_int(),
            a.neg_req() ==> a.neg_spec().as_int() == -a.as_int(),
    ;
}

impl Int for u8 {
    open spec fn as_int(self) -> int {
        self as int
    }

    open spec fn from_int(i: int) -> Self {
        i as u8
    }

    open spec fn min_int() -> int {
        u8::MIN as int
    }

    open spec fn max_int() -> int {
        u8::MAX as int
    }

    const ZERO: Self = 0;

    const ONE: Self = 1;

    const MIN: Self = u8::MIN;

    const MAX: Self = u8::MAX;

    fn to_usize(&self) -> (r: usize) {
        match self.checked_to_usize() {
            Some(v) => v,
            None => self.saturating_to_usize(),
        }
    }

    fn saturating_to_usize(&self) -> (r: usize) {
        match self.checked_to_usize() {
            Some(v) => v,
            None => usize::MAX,
        }
    }

    fn checked_to_usize(&self) -> (r: Option<usize>) {
        Some(*self as usize)
    }

    fn from_usize(value: usize) -> (r: Self) {
        match Self::checked_from_usize(value) {
            Some(v) => v,
            None => Self::saturating_from_usize(value),
        }
    }

    fn saturating_from_usize(value: usize) -> (r: Self) {
        match Self::checked_from_usize(value) {
            Some(v) => v,
            None => u8::MAX,
        }
    }

    fn checked_from_usize(value: usize) -> (r: Option<Self>) {
        if value <= u8::MAX as usize {
            Some(value as u8)
        } else {
            None
        }
    }

    fn checked_to_i128(&self) -> (r: Option<i128>) {
        Some(*self as i128)
    }

    fn checked_from_i128(value: i128) -> (r: Option<Self>) {
        if 0 <= value && value <= u8::MAX as i128 {
            Some(value as u8)
        } else {
            None
        }
    }

    fn checked_to_u128(&self) -> (r: Option<u128>) {
        Some(*self as u128)
    }

    fn checked_from_u128(value: u128) -> (r: Option<Self>) {
        if value <= u8::MAX as u128 {
            Some(value as u8)
        } else {
            None
        }
    }

    proof fn lemma_limits() {
    }

    proof fn lemma_value(a: Self, b: Self) {
    }

    proof fn lemma_from_int(i: int) {
    }

    proof fn lemma_add(a: Self, b: Self) {
    }

    proof fn lemma_sub(a: Self, b: Self) {
    }

    proof fn lemma_mul(a: Self, b: Self) {
    }

    proof fn lemma_div(a: Self, b: Self) {
    }

    proof fn lemma_rem(a: Self, b: Self) {
    }

    proof fn lemma_order(a: Self, b: Self) {
    }
}

impl Int for u16 {
    open spec fn as_int(self) -> int {
        self as int
    }

    open spec fn from_int(i: int) -> Self {
        i as u16
    }

    open spec fn min_int() -> int {
        u16::MIN as int
    }

    open spec fn max_int() -> int {
        u16::MAX as int
    }

    const ZERO: Self = 0;

    const ONE: Self = 1;

    const MIN: Self = u16::MIN;

    const MAX: Self = u16::MAX;

    fn to_usize(&self) -> (r: usize) {
        match self.checked_to_usize() {
            Some(v) => v,
            None => self.saturating_to_usize(),
        }
    }

    fn saturating_to_usize(&self) -> (r: usize) {
        match self.checked_to_usize() {
            Some(v) => v,
            None => usize::MAX,
        }
    }

    fn checked_to_usize(&self) -> (r: Option<usize>) {
        Some(*self as usize)
    }

    fn from_usize(value: usize) -> (r: Self) {
        match Self::checked_from_usize(value) {
            Some(v) => v,
            None => Self::saturating_from_usize(value),
        }
    }

    fn saturating_from_usize(value: usize) -> (r: Self) {
        match Self::checked_from_usize(value) {
            Some(v) => v,
            None => u16::MAX,
        }
    }

    fn checked_from_usize(value: usize) -> (r: Option<Self>) {
        if value <= u16::MAX as usize {
            Some(value as u16)
        } else {
            None
        }
    }

    fn checked_to_i128(&self) -> (r: Option<i128>) {
        Some(*self as i128)
    }

    fn checked_from_i128(value: i128) -> (r: Option<Self>) {
        if 0 <= value && value <= u16::MAX as i128 {
            Some(value as u16)
        } else {
            None
        }
    }

    fn checked_to_u128(&self) -> (r: Option<u128>) {
        Some(*self as u128)
    }

    fn checked_from_u128(value: u128) -> (r: Option<Self>) {
        if value <= u16::MAX as u128 {
            Some(value as u16)
        } else {
            None
        }
    }

    proof fn lemma_limits() {
    }

    proof fn lemma_value(a: Self, b: Self) {
    }

    proof fn lemma_from_int(i: int) {
    }

    proof fn lemma_add(a: Self, b: Self) {
    }

    proof fn lemma_sub(a: Self, b: Self) {
    }

    proof fn lemma_mul(a: Self, b: Self) {
    }

    proof fn lemma_div(a: Self, b: Self) {
    }

    proof fn lemma_rem(a: Self, b: Self) {
    }

    proof fn lemma_order(a: Self, b: Self) {
    }
}

impl Int for u32 {
    open spec fn as_int(self) -> int {
        self as int
    }

    open spec fn from_int(i: int) -> Self {
        i as u32
    }

    open spec fn min_int() -> int {
        u32::MIN as int
    }

    open spec fn max_int() -> int {
        u32::MAX as int
    }

    const ZERO: Self = 0;

    const ONE: Self = 1;

    const MIN: Self = u32::MIN;

    const MAX: Self = u32::MAX;

    fn to_usize(&self) -> (r: usize) {
        match self.checked_to_usize() {
            Some(v) => v,
            None => self.saturating_to_usize(),
        }
    }

    fn saturating_to_usize(&self) -> (r: usize) {
        match self.checked_to_usize() {
            Some(v) => v,
            None => usize::MAX,
        }
    }

    fn checked_to_usize(&self) -> (r: Option<usize>) {
        Some(*self as usize)
    }

    fn from_usize(value: usize) -> (r: Self) {
        match Self::checked_from_usize(value) {
            Some(v) => v,
            None => Self::saturating_from_usize(value),
        }
    }

    fn saturating_from_usize(value: usize) -> (r: Self) {
        match Self::checked_from_usize(value) {
            Some(v) => v,
            None => u32::MAX,
        }
    }

    fn checked_from_usize(value: usize) -> (r: Option<Self>) {
        if value <= u32::MAX as usize {
            Some(value as u32)
        } else {
            None
        }
    }

    fn checked_to_i128(&self) -> (r: Option<i128>) {
        Some(*self as i128)
    }

    fn checked_from_i128(value: i128) -> (r: Option<Self>) {
        if 0 <= value && value <= u32::MAX as i128 {
            Some(value as u32)
        } else {
            None
        }
    }

    fn checked_to_u128(&self) -> (r: Option<u128>) {
        Some(*self as u128)
    }

    fn checked_from_u128(value: u128) -> (r: Option<Self>) {
        if value <= u32::MAX as u128 {
            Some(value as u32)
        } else {
            None
        }
    }

    proof fn lemma_limits() {
    }

    proof fn lemma_value(a: Self, b: Self) {
    }

    proof fn lemma_from_int(i: int) {
    }

    proof fn lemma_add(a: Self, b: Self) {
    }

    proof fn lemma_sub(a: Self, b: Self) {
    }

    proof fn lemma_mul(a: Self, b: Self) {
    }

    proof fn lemma_div(a: Self, b: Self) {
    }

    proof fn lemma_rem(a: Self, b: Self) {
    }

    proof fn lemma_order(a: Self, b: Self) {
    }
}

impl Int for u64 {
    open spec fn as_int(self) -> int {
        self as int
    }

    open spec fn from_int(i: int) -> Self {
        i as u64
    }

    open spec fn min_int() -> int {
        u64::MIN as int
    }

    open spec fn max_int() -> int {
        u64::MAX as int
    }

    const ZERO: Self = 0;

    const ONE: Self = 1;

    const MIN: Self = u64::MIN;

    const MAX: Self = u64::MAX;

    fn to_usize(&self) -> (r: usize) {
        match self.checked_to_usize() {
            Some(v) => v,
            None => self.saturating_to_usize(),
        }
    }

    fn saturating_to_usize(&self) -> (r: usize) {
        match self.checked_to_usize() {
            Some(v) => v,
            None => usize::MAX,
        }
    }

    fn checked_to_usize(&self) -> (r: Option<usize>) {
        if *self <= usize::MAX as u64 {
            Some(*self as usize)
        } else {
            None
        }
    }

    fn from_usize(value: usize) -> (r: Self) {
        match Self::checked_from_usize(value) {
            Some(v) => v,
            None => Self::saturating_from_usize(value),
        }
    }

    fn saturating_from_usize(value: usize) -> (r: Self) {
        match Self::checked_from_usize(value) {
            Some(v) => v,
            None => u64::MAX,
        }
    }

    fn checked_from_usize(value: usize) -> (r: Option<Self>) {
        Some(value as u64)
    }

    fn checked_to_i128(&self) -> (r: Option<i128>) {
        Some(*self as i128)
    }

    fn checked_from_i128(value: i128) -> (r: Option<Self>) {
        if 0 <= value && value <= u64::MAX as i128 {
            Some(value as u64)
        } else {
            None
        }
    }

    fn checked_to_u128(&self) -> (r: Option<u128>) {
        Some(*self as u128)
    }

    fn checked_from_u128(value: u128) -> (r: Option<Self>) {
        if value <= u64::MAX as u128 {
            Some(value as u64)
        } else {
            None
        }
    }

    proof fn lemma_limits() {
    }

    proof fn lemma_value(a: Self, b: Self) {
    }

    proof fn lemma_from_int(i: int) {
    }

    proof fn lemma_add(a: Self, b: Self) {
    }

    proof fn lemma_sub(a: Self, b: Self) {
    }

    proof fn lemma_mul(a: Self, b: Self) {
    }

    proof fn lemma_div(a: Self, b: Self) {
    }

    proof fn lemma_rem(a: Self, b: Self) {
    }

    proof fn lemma_order(a: Self, b: Self) {
    }
}

impl Int for u128 {
    open spec fn as_int(self) -> int {
        self as int
    }

    open spec fn from_int(i: int) -> Self {
        i as u128
    }

    open spec fn min_int() -> int {
        u128::MIN as int
    }

    open spec fn max_int() -> int {
        u128::MAX as int
    }

    const ZERO: Self = 0;

    const ONE: Self = 1;

    const MIN: Self = u128::MIN;

    const MAX: Self = u128::MAX;

    fn to_usize(&self) -> (r: usize) {
        match self.checked_to_usize() {
            Some(v) => v,
            None => self.saturating_to_usize(),
        }
    }

    fn saturating_to_usize(&self) -> (r: usize) {
        match self.checked_to_usize() {
            Some(v) => v,
            None => usize::MAX,
        }
    }

    fn checked_to_usize(&self) -> (r: Option<usize>) {
        if *self <= usize::MAX as u128 {
            Some(*self as usize)
        } else {
            None
        }
    }

    fn from_usize(value: usize) -> (r: Self) {
        match Self::checked_from_usize(value) {
            Some(v) => v,
            None => Self::saturating_from_usize(value),
        }
    }

    fn saturating_from_usize(value: usize) -> (r: Self) {
        match Self::checked_from_usize(value) {
            Some(v) => v,
            None => u128::MAX,
        }
    }

    fn checked_from_usize(value: usize) -> (r: Option<Self>) {
        Some(value as u128)
    }

    fn checked_to_i128(&self) -> (r: Option<i128>) {
        if *self <= i128::MAX as u128 {
            Some(*self as i128)
        } else {
            None
        }
    }

    fn checked_from_i128(value: i128) -> (r: Option<Self>) {
        if value >= 0 {
            Some(value as u128)
        } else {
            None
        }
    }

    fn checked_to_u128(&self) -> (r: Option<u128>) {
        Some(*self)
    }

    fn checked_from_u128(value: u128) -> (r: Option<Self>) {
        Some(value)
    }

    proof fn lemma_limits() {
    }

    proof fn lemma_value(a: Self, b: Self) {
    }

    proof fn lemma_from_int(i: int) {
    }

    proof fn lemma_add(a: Self, b: Self) {
    }

    proof fn lemma_sub(a: Self, b: Self) {
    }

    proof fn lemma_mul(a: Self, b: Self) {
    }

    proof fn lemma_div(a: Self, b: Self) {
    }

    proof fn lemma_rem(a: Self, b: Self) {
    }

    proof fn lemma_order(a: Self, b: Self) {
    }
}

impl Int for usize {
    open spec fn as_int(self) -> int {
        self as int
    }

    open spec fn from_int(i: int) -> Self {
        i as usize
    }

    open spec fn min_int() -> int {
        usize::MIN as int
    }

    open spec fn max_int() -> int {
        usize::MAX as int
    }

    const ZERO: Self = 0;

    const ONE: Self = 1;

    const MIN: Self = usize::MIN;

    const MAX: Self = usize::MAX;

    fn to_usize(&self) -> (r: usize) {
        match self.checked_to_usize() {
            Some(v) => v,
            None => self.saturating_to_usize(),
        }
    }

    fn saturating_to_usize(&self) -> (r: usize) {
        match self.checked_to_usize() {
            Some(v) => v,
            None => usize::MAX,
        }
    }

    fn checked_to_usize(&self) -> (r: Option<usize>) {
        Some(*self)
    }

    fn from_usize(value: usize) -> (r: Self) {
        match Self::checked_from_usize(value) {
            Some(v) => v,
            None => Self::saturating_from_usize(value),
        }
    }

    fn saturating_from_usize(value: usize) -> (r: Self) {
        match Self::checked_from_usize(value) {
            Some(v) => v,
            None => usize::MAX,
        }
    }

    fn checked_from_usize(value: usize) -> (r: Option<Self>) {
        Some(value)
    }

    fn checked_to_i128(&self) -> (r: Option<i128>) {
        Some(*self as i128)
    }

    fn checked_from_i128(value: i128) -> (r: Option<Self>) {
        if 0 <= value && value <= usize::MAX as i128 {
            Some(value as usize)
        } else {
            None
        }
    }

    fn checked_to_u128(&self) -> (r: Option<u128>) {
        Some(*self as u128)
    }

    fn checked_from_u128(value: u128) -> (r: Option<Self>) {
        if value <= usize::MAX as u128 {
            Some(value as usize)
        } else {
            None
        }
    }

    proof fn lemma_limits() {
    }

    proof fn lemma_value(a: Self, b: Self) {
    }

    proof fn lemma_from_int(i: int) {
    }

    proof fn lemma_add(a: Self, b: Self) {
    }

    proof fn lemma_sub(a: Self, b: Self) {
    }

    proof fn lemma_mul(a: Self, b: Self) {
    }

    proof fn lemma_div(a: Self, b: Self) {
    }

    proof fn lemma_rem(a: Self, b: Self) {
    }

    proof fn lemma_order(a: Self, b: Self) {
    }
}

impl Int for i8 {
    open spec fn as_int(self) -> int {
        self as int
    }

    open spec fn from_int(i: int) -> Self {
        i as i8
    }

    open spec fn min_int() -> int {
        i8::MIN as int
    }

    open spec fn max_int() -> int {
        i8::MAX as int
    }

    const ZERO: Self = 0;

    const ONE: Self = 1;

    const MIN: Self = i8::MIN;

    const MAX: Self = i8::MAX;

    fn to_usize(&self) -> (r: usize) {
        match self.checked_to_usize() {
            Some(v) => v,
            None => self.saturating_to_usize(),
        }
    }

    fn saturating_to_usize(&self) -> (r: usize) {
        match self.checked_to_usize() {
            Some(v) => v,
            None => if *self < 0 {
                0
            } else {
                usize::MAX
            },
        }
    }

    fn checked_to_usize(&self) -> (r: Option<usize>) {
        if *self < 0 {
            None
        } else {
            Some(*self as usize)
        }
    }

    fn from_usize(value: usize) -> (r: Self) {
        match Self::checked_from_usize(value) {
            Some(v) => v,
            None => Self::saturating_from_usize(value),
        }
    }

    fn saturating_from_usize(value: usize) -> (r: Self) {
        match Self::checked_from_usize(value) {
            Some(v) => v,
            None => i8::MAX,
        }
    }

    fn checked_from_usize(value: usize) -> (r: Option<Self>) {
        if value <= i8::MAX as usize {
            Some(value as i8)
        } else {
            None
        }
    }

    fn checked_to_i128(&self) -> (r: Option<i128>) {
        Some(*self as i128)
    }

    fn checked_from_i128(value: i128) -> (r: Option<Self>) {
        if i8::MIN as i128 <= value && value <= i8::MAX as i128 {
            Some(value as i8)
        } else {
            None
        }
    }

    fn checked_to_u128(&self) -> (r: Option<u128>) {
        if *self < 0 {
            None
        } else {
            Some(*self as u128)
        }
    }

    fn checked_from_u128(value: u128) -> (r: Option<Self>) {
        if value <= i8::MAX as u128 {
            Some(value as i8)
        } else {
            None
        }
    }

    proof fn lemma_limits() {
    }

    proof fn lemma_value(a: Self, b: Self) {
    }

    proof fn lemma_from_int(i: int) {
    }

    proof fn lemma_add(a: Self, b: Self) {
    }

    proof fn lemma_sub(a: Self, b: Self) {
    }

    proof fn lemma_mul(a: Self, b: Self) {
    }

    proof fn lemma_div(a: Self, b: Self) {
        if b != 0 {
            lemma_trunc_bounds(a as int, b as int);
        }
    }

    proof fn lemma_rem(a: Self, b: Self) {
        if b != 0 {
            lemma_trunc_bounds(a as int, b as int);
        }
    }

    proof fn lemma_order(a: Self, b: Self) {
    }
}

impl SignedInt for i8 {
    const NEG_ONE: Self = -1;

    proof fn lemma_neg(a: Self) {
    }
}

impl Int for i16 {
    open spec fn as_int(self) -> int {
        self as int
    }

    open spec fn from_int(i: int) -> Self {
        i as i16
    }

    open spec fn min_int() -> int {
        i16::MIN as int
    }

    open spec fn max_int() -> int {
        i16::MAX as int
    }

    const ZERO: Self = 0;

    const ONE: Self = 1;

    const MIN: Self = i16::MIN;

    const MAX: Self = i16::MAX;

    fn to_usize(&self) -> (r: usize) {
        match self.checked_to_usize() {
            Some(v) => v,
            None => self.saturating_to_usize(),
        }
    }

    fn saturating_to_usize(&self) -> (r: usize) {
        match self.checked_to_usize() {
            Some(v) => v,
            None => if *self < 0 {
                0
            } else {
                usize::MAX
            },
        }
    }

    fn checked_to_usize(&self) -> (r: Option<usize>) {
        if *self < 0 {
            None
        } else {
            Some(*self as usize)
        }
    }

    fn from_usize(value: usize) -> (r: Self) {
        match Self::checked_from_usize(value) {
            Some(v) => v,
            None => Self::saturating_from_usize(value),
        }
    }

    fn saturating_from_usize(value: usize) -> (r: Self) {
        match Self::checked_from_usize(value) {
            Some(v) => v,
            None => i16::MAX,
        }
    }

    fn checked_from_usize(value: usize) -> (r: Option<Self>) {
        if value <= i16::MAX as usize {
            Some(value as i16)
        } else {
            None
        }
    }

    fn checked_to_i128(&self) -> (r: Option<i128>) {
        Some(*self as i128)
    }

    fn checked_from_i128(value: i128) -> (r: Option<Self>) {
        if i16::MIN as i128 <= value && value <= i16::MAX as i128 {
            Some(value as i16)
        } else {
            None
        }
    }

    fn checked_to_u128(&self) -> (r: Option<u128>) {
        if *self < 0 {
            None
        } else {
            Some(*self as u128)
        }
    }

    fn checked_from_u128(value: u128) -> (r: Option<Self>) {
        if value <= i16::MAX as u128 {
            Some(value as i16)
        } else {
            None
        }
    }

    proof fn lemma_limits() {
    }

    proof fn lemma_value(a: Self, b: Self) {
    }

    proof fn lemma_from_int(i: int) {
    }

    proof fn lemma_add(a: Self, b: Self) {
    }

    proof fn lemma_sub(a: Self, b: Self) {
    }

    proof fn lemma_mul(a: Self, b: Self) {
    }

    proof fn lemma_div(a: Self, b: Self) {
        if b != 0 {
            lemma_trunc_bounds(a as int, b as int);
        }
    }

    proof fn lemma_rem(a: Self, b: Self) {
        if b != 0 {
            lemma_trunc_bounds(a as int, b as int);
        }
    }

    proof fn lemma_order(a: Self, b: Self) {
    }
}

impl SignedInt for i16 {
    const NEG_ONE: Self = -1;

    proof fn lemma_neg(a: Self) {
    }
}

impl Int for i32 {
    open spec fn as_int(self) -> int {
        self as int
    }

    open spec fn from_int(i: int) -> Self {
        i as i32
    }

    open spec fn min_int() -> int {
        i32::MIN as int
    }

    open spec fn max_int() -> int {
        i32::MAX as int
    }

    const ZERO: Self = 0;

    const ONE: Self = 1;

    const MIN: Self = i32::MIN;

    const MAX: Self = i32::MAX;

    fn to_usize(&self) -> (r: usize) {
        match self.checked_to_usize() {
            Some(v) => v,
            None => self.saturating_to_usize(),
        }
    }

    fn saturating_to_usize(&self) -> (r: usize) {
        match self.checked_to_usize() {
            Some(v) => v,
            None => if *self < 0 {
                0
            } else {
                usize::MAX
            },
        }
    }

    fn checked_to_usize(&self) -> (r: Option<usize>) {
        if *self < 0 {
            None
        } else {
            Some(*self as usize)
        }
    }

    fn from_usize(value: usize) -> (r: Self) {
        match Self::checked_from_usize(value) {
            Some(v) => v,
            None => Self::saturating_from_usize(value),
        }
    }

    fn saturating_from_usize(value: usize) -> (r: Self) {
        match Self::checked_from_usize(value) {
            Some(v) => v,
            None => i32::MAX,
        }
    }

    fn checked_from_usize(value: usize) -> (r: Option<Self>) {
        if value <= i32::MAX as usize {
            Some(value as i32)
        } else {
            None
        }
    }

    fn checked_to_i128(&self) -> (r: Option<i128>) {
        Some(*self as i128)
    }

    fn checked_from_i128(value: i128) -> (r: Option<Self>) {
        if i32::MIN as i128 <= value && value <= i32::MAX as i128 {
            Some(value as i32)
        } else {
            None
        }
    }

    fn checked_to_u128(&self) -> (r: Option<u128>) {
        if *self < 0 {
            None
        } else {
            Some(*self as u128)
        }
    }

    fn checked_from_u128(value: u128) -> (r: Option<Self>) {
        if value <= i32::MAX as u128 {
            Some(value as i32)
        } else {
            None
        }
    }

    proof fn lemma_limits() {
    }

    proof fn lemma_value(a: Self, b: Self) {
    }

    proof fn lemma_from_int(i: int) {
    }

    proof fn lemma_add(a: Self, b: Self) {
    }

    proof fn lemma_sub(a: Self, b: Self) {
    }

    proof fn lemma_mul(a: Self, b: Self) {
    }

    proof fn lemma_div(a: Self, b: Self) {
        if b != 0 {
            lemma_trunc_bounds(a as int, b as int);
        }
    }

    proof fn lemma_rem(a: Self, b: Self) {
        if b != 0 {
            lemma_trunc_bounds(a as int, b as int);
        }
    }

    proof fn lemma_order(a: Self, b: Self) {
    }
}

impl SignedInt for i32 {
    const NEG_ONE: Self = -1;

    proof fn lemma_neg(a: Self) {
    }
}

impl Int for i64 {
    open spec fn as_int(self) -> int {
        self as int
    }

    open spec fn from_int(i: int) -> Self {
        i as i64
    }

    open spec fn min_int() -> int {
        i64::MIN as int
    }

    open spec fn max_int() -> int {
        i64::MAX as int
    }

    const ZERO: Self = 0;

    const ONE: Self = 1;

    const MIN: Self = i64::MIN;

    const MAX: Self = i64::MAX;

    fn to_usize(&self) -> (r: usize) {
        match self.checked_to_usize() {
            Some(v) => v,
            None => self.saturating_to_usize(),
        }
    }

    fn saturating_to_usize(&self) -> (r: usize) {
        match self.checked_to_usize() {
            Some(v) => v,
            None => if *self < 0 {
                0
            } else {
                usize::MAX
            },
        }
    }

    fn checked_to_usize(&self) -> (r: Option<usize>) {
        if *self < 0 {
            None
        } else if *self as u64 <= usize::MAX as u64 {
            Some(*self as usize)
        } else {
            None
        }
    }

    fn from_usize(value: usize) -> (r: Self) {
        match Self::checked_from_usize(value) {
            Some(v) => v,
            None => Self::saturating_from_usize(value),
        }
    }

    fn saturating_from_usize(value: usize) -> (r: Self) {
        match Self::checked_from_usize(value) {
            Some(v) => v,
            None => i64::MAX,
        }
    }

    fn checked_from_usize(value: usize) -> (r: Option<Self>) {
        if value as u64 <= i64::MAX as u64 {
            Some(value as i64)
        } else {
            None
        }
    }

    fn checked_to_i128(&self) -> (r: Option<i128>) {
        Some(*self as i128)
    }

    fn checked_from_i128(value: i128) -> (r: Option<Self>) {
        if i64::MIN as i128 <= value && value <= i64::MAX as i128 {
            Some(value as i64)
        } else {
            None
        }
    }

    fn checked_to_u128(&self) -> (r: Option<u128>) {
        if *self < 0 {
            None
        } else {
            Some(*self as u128)
        }
    }

    fn checked_from_u128(value: u128) -> (r: Option<Self>) {
        if value <= i64::MAX as u128 {
            Some(value as i64)
        } else {
            None
        }
    }

    proof fn lemma_limits() {
    }

    proof fn lemma_value(a: Self, b: Self) {
    }

    proof fn lemma_from_int(i: int) {
    }

    proof fn lemma_add(a: Self, b: Self) {
    }

    proof fn lemma_sub(a: Self, b: Self) {
    }

    proof fn lemma_mul(a: Self, b: Self) {
    }

    proof fn lemma_div(a: Self, b: Self) {
        if b != 0 {
            lemma_trunc_bounds(a as int, b as int);
        }
    }

    proof fn lemma_rem(a: Self, b: Self) {
        if b != 0 {
            lemma_trunc_bounds(a as int, b as int);
        }
    }

    proof fn lemma_order(a: Self, b: Self) {
    }
}

impl SignedInt for i64 {
    const NEG_ONE: Self = -1;

    proof fn lemma_neg(a: Self) {
    }
}

impl Int for i128 {
    open spec fn as_int(self) -> int {
        self as int
    }

    open spec fn from_int(i: int) -> Self {
        i as i128
    }

    open spec fn min_int() -> int {
        i128::MIN as int
    }

    open spec fn max_int() -> int {
        i128::MAX as int
    }

    const ZERO: Self = 0;

    const ONE: Self = 1;

    const MIN: Self = i128::MIN;

    const MAX: Self = i128::MAX;

    fn to_usize(&self) -> (r: usize) {
        match self.checked_to_usize() {
            Some(v) => v,
            None => self.saturating_to_usize(),
        }
    }

    fn saturating_to_usize(&self) -> (r: usize) {
        match self.checked_to_usize() {
            Some(v) => v,
            None => if *self < 0 {
                0
            } else {
                usize::MAX
            },
        }
    }

    fn checked_to_usize(&self) -> (r: Option<usize>) {
        if *self < 0 {
            None
        } else if *self as u128 <= usize::MAX as u128 {
            Some(*self as usize)
        } else {
            None
        }
    }

    fn from_usize(value: usize) -> (r: Self) {
        match Self::checked_from_usize(value) {
            Some(v) => v,
            None => Self::saturating_from_usize(value),
        }
    }

    fn saturating_from_usize(value: usize) -> (r: Self) {
        match Self::checked_from_usize(value) {
            Some(v) => v,
            None => i128::MAX,
        }
    }

    fn checked_from_usize(value: usize) -> (r: Option<Self>) {
        Some(value as i128)
    }

    fn checked_to_i128(&self) -> (r: Option<i128>) {
        Some(*self)
    }

    fn checked_from_i128(value: i128) -> (r: Option<Self>) {
        Some(value)
    }

    fn checked_to_u128(&self) -> (r: Option<u128>) {
        if *self < 0 {
            None
        } else {
            Some(*self as u128)
        }
    }

    fn checked_from_u128(value: u128) -> (r: Option<Self>) {
        if value <= i128::MAX as u128 {
            Some(value as i128)
        } else {
            None
        }
    }

    proof fn lemma_limits() {
    }

    proof fn lemma_value(a: Self, b: Self) {
    }

    proof fn lemma_from_int(i: int) {
    }

    proof fn lemma_add(a: Self, b: Self) {
    }

    proof fn lemma_sub(a: Self, b: Self) {
    }

    proof fn lemma_mul(a: Self, b: Self) {
    }

    proof fn lemma_div(a: Self, b: Self) {
        if b != 0 {
            lemma_trunc_bounds(a as int, b as int);
        }
    }

    proof fn lemma_rem(a: Self, b: Self) {
        if b != 0 {
            lemma_trunc_bounds(a as int, b as int);
        }
    }

    proof fn lemma_order(a: Self, b: Self) {
    }
}

impl SignedInt for i128 {
    const NEG_ONE: Self = -1;

    proof fn lemma_neg(a: Self) {
    }
}

impl Int for isize {
    open spec fn as_int(self) -> int {
        self as int
    }

    open spec fn from_int(i: int) -> Self {
        i as isize
    }

    open spec fn min_int() -> int {
        isize::MIN as int
    }

    open spec fn max_int() -> int {
        isize::MAX as int
    }

    const ZERO: Self = 0;

    const ONE: Self = 1;

    const MIN: Self = isize::MIN;

    const MAX: Self = isize::MAX;

    fn to_usize(&self) -> (r: usize) {
        match self.checked_to_usize() {
            Some(v) => v,
            None => self.saturating_to_usize(),
        }
    }

    fn saturating_to_usize(&self) -> (r: usize) {
        match self.checked_to_usize() {
            Some(v) => v,
            None => if *self < 0 {
                0
            } else {
                usize::MAX
            },
        }
    }

    fn checked_to_usize(&self) -> (r: Option<usize>) {
        if *self < 0 {
            None
        } else {
            Some(*self as usize)
        }
    }

    fn from_usize(value: usize) -> (r: Self) {
        match Self::checked_from_usize(value) {
            Some(v) => v,
            None => Self::saturating_from_usize(value),
        }
    }

    fn saturating_from_usize(value: usize) -> (r: Self) {
        match Self::checked_from_usize(value) {
            Some(v) => v,
            None => isize::MAX,
        }
    }

    fn checked_from_usize(value: usize) -> (r: Option<Self>) {
        if value <= isize::MAX as usize {
            Some(value as isize)
        } else {
            None
        }
    }

    fn checked_to_i128(&self) -> (r: Option<i128>) {
        Some(*self as i128)
    }

    fn checked_from_i128(value: i128) -> (r: Option<Self>) {
        if isize::MIN as i128 <= value && value <= isize::MAX as i128 {
            Some(value as isize)
        } else {
            None
        }
    }

    fn checked_to_u128(&self) -> (r: Option<u128>) {
        if *self < 0 {
            None
        } else {
            Some(*self as u128)
        }
    }

    fn checked_from_u128(value: u128) -> (r: Option<Self>) {
        if value <= isize::MAX as u128 {
            Some(value as isize)
        } else {
            None
        }
    }

    proof fn lemma_limits() {
    }

    proof fn lemma_value(a: Self, b: Self) {
    }

    proof fn lemma_from_int(i: int) {
    }

    proof fn lemma_add(a: Self, b: Self) {
    }

    proof fn lemma_sub(a: Self, b: Self) {
    }

    proof fn lemma_mul(a: Self, b: Self) {
    }

    proof fn lemma_div(a: Self, b: Self) {
        if b != 0 {
            lemma_trunc_bounds(a as int, b as int);
        }
    }

    proof fn lemma_rem(a: Self, b: Self) {
        if b != 0 {
            lemma_trunc_bounds(a as int, b as int);
        }
    }

    proof fn lemma_order(a: Self, b: Self) {
    }
}

impl SignedInt for isize {
    const NEG_ONE: Self = -1;

    proof fn lemma_neg(a: Self) {
    }
}

} // verus!

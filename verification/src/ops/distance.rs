//! Distances between positions.
use vstd::prelude::*;

use crate::integer::Int;
use crate::internal;
use crate::internal::is_isqrt;
use crate::pos::Pos;

verus! {

/// The square of the Euclidean distance between `a` and `b`.
pub open spec fn squared_distance(a: (int, int), b: (int, int)) -> int {
    (a.0 - b.0) * (a.0 - b.0) + (a.1 - b.1) * (a.1 - b.1)
}

/// Whether the squared distance between `a` and `b` can be computed in `T`:
/// `T` can hold the differences of the coordinates and the sum of their
/// squares.
pub open spec fn distance_fits<T: Int>(a: (int, int), b: (int, int)) -> bool {
    &&& T::min_int() <= a.0 - b.0 <= T::max_int()
    &&& T::min_int() <= a.1 - b.1 <= T::max_int()
    &&& squared_distance(a, b) <= T::max_int()
}

/// Calculates the squared Euclidean distance between two positions.
pub fn euclidean_squared<T: Int>(a: Pos<T>, b: Pos<T>) -> (r: T)
    requires
        distance_fits::<T>(a@, b@),
    ensures
        r.as_int() == squared_distance(a@, b@),
{
    proof {
        T::lemma_limits();
        T::lemma_sub(a.x, b.x);
        T::lemma_sub(a.y, b.y);
    }
    let dx = a.x - b.x;
    let dy = a.y - b.y;
    proof {
        T::lemma_mul(dx, dx);
        T::lemma_mul(dy, dy);
        assert(0 <= dx.as_int() * dx.as_int()) by (nonlinear_arith);
        assert(0 <= dy.as_int() * dy.as_int()) by (nonlinear_arith);
    }
    let xx = dx * dx;
    let yy = dy * dy;
    proof {
        T::lemma_add(xx, yy);
    }
    xx + yy
}

/// Calculates the Euclidean distance between two positions, rounded down
/// to an integer.
pub fn euclidean_approx<T: Int>(a: Pos<T>, b: Pos<T>) -> (r: T)
    requires
        distance_fits::<T>(a@, b@),
        squared_distance(a@, b@) < T::max_int(),
    ensures
        is_isqrt(squared_distance(a@, b@), r.as_int()),
{
    proof {
        assert(0 <= (a@.0 - b@.0) * (a@.0 - b@.0)) by (nonlinear_arith);
        assert(0 <= (a@.1 - b@.1) * (a@.1 - b@.1)) by (nonlinear_arith);
    }
    internal::isqrt(euclidean_squared(a, b))
}

} // verus!

//! Arithmetic that the operations on positions share.
use vstd::prelude::*;

use crate::integer::{trunc_div, Int};

verus! {

/// The distance of `v` from zero.
pub open spec fn abs(v: int) -> nat {
    if v < 0 {
        (-v) as nat
    } else {
        v as nat
    }
}

/// Whether `d` divides `n`.
pub open spec fn divides(d: nat, n: nat) -> bool {
    d > 0 && n % d == 0
}

/// The greatest common divisor of `a` and `b`; `0` where both are `0`.
pub open spec fn gcd_of(a: nat, b: nat) -> nat
    decreases b,
{
    if b == 0 {
        a
    } else {
        gcd_of(b, a % b)
    }
}

/// A number that divides two numbers divides their sum, and the rest that
/// one of them leaves when divided by the other.
proof fn lemma_divides_rest(d: nat, a: nat, b: nat)
    requires
        b > 0,
        d > 0,
    ensures
        divides(d, a) && divides(d, b) ==> divides(d, a % b),
        divides(d, b) && divides(d, a % b) ==> divides(d, a),
{
    let q = (a / b) as int;
    let r = (a % b) as int;
    vstd::arithmetic::div_mod::lemma_fundamental_div_mod(a as int, b as int);
    if divides(d, b) {
        let k = (b / d) as int;
        vstd::arithmetic::div_mod::lemma_fundamental_div_mod(b as int, d as int);
        assert(b * q == d * (k * q)) by (nonlinear_arith)
            requires
                b == d * k,
        ;
        if divides(d, a) {
            let j = (a / d) as int;
            vstd::arithmetic::div_mod::lemma_fundamental_div_mod(a as int, d as int);
            assert(r == d * (j - k * q)) by (nonlinear_arith)
                requires
                    a == d * j,
                    a == b * q + r,
                    b * q == d * (k * q),
            ;
            vstd::arithmetic::div_mod::lemma_mod_multiples_basic(j - k * q, d as int);
            assert(d * (j - k * q) == (j - k * q) * d) by (nonlinear_arith);
        }
        if divides(d, a % b) {
            let j = (r / d as int) as int;
            vstd::arithmetic::div_mod::lemma_fundamental_div_mod(r, d as int);
            assert(a == d * (j + k * q)) by (nonlinear_arith)
                requires
                    r == d * j,
                    a == b * q + r,
                    b * q == d * (k * q),
            ;
            vstd::arithmetic::div_mod::lemma_mod_multiples_basic(j + k * q, d as int);
            assert(d * (j + k * q) == (j + k * q) * d) by (nonlinear_arith);
        }
    }
}

/// The greatest common divisor divides both numbers, and every number that
/// divides both divides it.
pub proof fn lemma_gcd(a: nat, b: nat, d: nat)
    ensures
        a > 0 || b > 0 ==> divides(gcd_of(a, b), a) && divides(gcd_of(a, b), b),
        a == 0 && b == 0 ==> gcd_of(a, b) == 0,
        divides(d, a) && divides(d, b) && (a > 0 || b > 0) ==> divides(d, gcd_of(a, b)) && d
            <= gcd_of(a, b),
    decreases b,
{
    if b == 0 {
        if a > 0 {
            vstd::arithmetic::div_mod::lemma_mod_self_0(a as int);
            if divides(d, a) {
                vstd::arithmetic::div_mod::lemma_mod_is_zero(a, d);
            }
        }
    } else {
        lemma_gcd(b, a % b, d);
        lemma_gcd(b, a % b, gcd_of(b, a % b));
        lemma_divides_rest(gcd_of(b, a % b), a, b);
        if d > 0 {
            lemma_divides_rest(d, a, b);
        }
    }
}

/// Returns the distance of `v` from zero.
pub fn abs_of<T: Int>(v: T) -> (r: T)
    requires
        -T::max_int() <= v.as_int(),
    ensures
        r.as_int() == abs(v.as_int()),
{
    proof {
        T::lemma_limits();
        T::lemma_order(v, T::ZERO);
        T::lemma_sub(T::ZERO, v);
    }
    if v < T::ZERO {
        T::ZERO - v
    } else {
        v
    }
}

/// Calculates the greatest common divisor (GCD) of two integers.
///
/// The result is never negative, and `0` only where both integers are `0`.
pub fn gcd<T: Int>(a: T, b: T) -> (r: T)
    requires
        -T::max_int() <= a.as_int(),
        -T::max_int() <= b.as_int(),
    ensures
        r.as_int() == gcd_of(abs(a.as_int()), abs(b.as_int())),
{
    let mut x = abs_of(a);
    let mut y = abs_of(b);
    proof {
        T::lemma_limits();
    }
    loop
        invariant
            0 <= x.as_int(),
            0 <= y.as_int(),
            T::ZERO.as_int() == 0,
            gcd_of(x.as_int() as nat, y.as_int() as nat) == gcd_of(
                abs(a.as_int()),
                abs(b.as_int()),
            ),
        ensures
            x.as_int() == gcd_of(abs(a.as_int()), abs(b.as_int())),
        decreases y.as_int(),
    {
        proof {
            T::lemma_order(y, T::ZERO);
            T::lemma_rem(x, y);
            T::lemma_value(x, y);
            T::lemma_value(y, x);
            if y.as_int() != 0 {
                vstd::arithmetic::div_mod::lemma_mod_pos_bound(x.as_int(), y.as_int());
                vstd::arithmetic::div_mod::lemma_div_pos_is_pos(x.as_int(), y.as_int());
                vstd::arithmetic::div_mod::lemma_fundamental_div_mod(x.as_int(), y.as_int());
                assert(x.as_int() / y.as_int() <= x.as_int()) by (nonlinear_arith)
                    requires
                        x.as_int() == y.as_int() * (x.as_int() / y.as_int()) + x.as_int()
                            % y.as_int(),
                        0 <= x.as_int() % y.as_int(),
                        0 <= x.as_int() / y.as_int(),
                        0 < y.as_int(),
                ;
            }
        }
        if y == T::ZERO {
            break ;
        }
        let rest = x % y;
        x = y;
        y = rest;
    }
    x
}

/// Whether the square of `r` is not greater than `n`.
pub open spec fn square_within(n: int, r: int) -> bool {
    0 <= r && r * r <= n
}

/// Whether `r` is the integer square root of `n`: the greatest number whose
/// square is not greater than `n`.
pub open spec fn is_isqrt(n: int, r: int) -> bool {
    0 <= r && r * r <= n < (r + 1) * (r + 1)
}

/// One step of Newton's method does not fall below a number whose square is
/// not greater than `n`.
proof fn lemma_newton_step(n: int, x: int, r: int)
    requires
        1 <= n,
        1 <= x,
        0 <= r,
        r * r <= n,
    ensures
        (n / x + x) / 2 >= r,
        1 <= (n / x + x) / 2,
        x <= n ==> n / x + x <= n + 1,
        0 <= n / x,
{
    let q = n / x;
    vstd::arithmetic::div_mod::lemma_fundamental_div_mod(n, x);
    vstd::arithmetic::div_mod::lemma_mod_pos_bound(n, x);
    vstd::arithmetic::div_mod::lemma_div_pos_is_pos(n, x);
    assert(n < (q + 1) * x) by (nonlinear_arith)
        requires
            n == x * q + n % x,
            n % x < x,
    ;
    if (q + x) / 2 < r {
        assert(q + x <= 2 * r - 1);
        assert((q + 1) * x <= (2 * r - x) * x) by (nonlinear_arith)
            requires
                q + 1 <= 2 * r - x,
                0 <= x,
        ;
        assert((2 * r - x) * x <= r * r) by (nonlinear_arith);
    }
    if q + x < 2 {
        assert(q == 0);
        assert(x == 1);
    }
    if x <= n {
        assert(q + x <= n + 1) by (nonlinear_arith)
            requires
                n == x * q + n % x,
                0 <= n % x,
                1 <= x <= n,
                0 <= q,
        ;
    }
}

/// Returns the integer square root of an integer; `0` for what is not
/// positive.
pub fn isqrt<T: Int>(n: T) -> (r: T)
    requires
        n.as_int() < T::max_int(),
    ensures
        n.as_int() <= 0 ==> r.as_int() == 0,
        n.as_int() > 0 ==> is_isqrt(n.as_int(), r.as_int()),
{
    proof {
        T::lemma_limits();
        T::lemma_order(n, T::ZERO);
    }
    if n <= T::ZERO {
        return T::ZERO;
    }
    let i2 = T::from_usize(2);
    let ghost m = n.as_int();
    proof {
        T::lemma_add(n, T::ONE);
        T::lemma_value(n, n);
    }
    let sum = n + T::ONE;
    proof {
        T::lemma_div(sum, i2);
        assert(trunc_div(m + 1, 2) == (m + 1) / 2);
        assert(m / m == 1) by (nonlinear_arith)
            requires
                m >= 1,
        ;
    }
    let mut x = n;
    let mut y = sum / i2;
    proof {
        assert forall|r: int| #[trigger] square_within(m, r) implies r <= m by {
            assert(r <= r * r) by (nonlinear_arith)
                requires
                    0 <= r,
            ;
        }
    }
    loop
        invariant
            1 <= m == n.as_int(),
            m < T::max_int(),
            i2.as_int() == 2,
            1 <= x.as_int() <= m,
            y.as_int() == (m / x.as_int() + x.as_int()) / 2,
            forall|r: int| #[trigger] square_within(m, r) ==> r <= x.as_int(),
        ensures
            is_isqrt(m, x.as_int()),
        decreases x.as_int(),
    {
        proof {
            T::lemma_order(y, x);
            lemma_newton_step(m, x.as_int(), 0);
        }
        if !(y < x) {
            proof {
                let xv = x.as_int();
                let q = m / xv;
                vstd::arithmetic::div_mod::lemma_fundamental_div_mod(m, xv);
                vstd::arithmetic::div_mod::lemma_mod_pos_bound(m, xv);
                assert(xv * xv <= m) by (nonlinear_arith)
                    requires
                        m == xv * q + m % xv,
                        0 <= m % xv,
                        xv <= q,
                        1 <= xv,
                ;
                if (xv + 1) * (xv + 1) <= m {
                    assert(square_within(m, xv + 1));
                }
            }
            break ;
        }
        proof {
            let yv = y.as_int();
            assert forall|r: int| #[trigger] square_within(m, r) implies r <= yv by {
                lemma_newton_step(m, x.as_int(), r);
            }
            lemma_newton_step(m, yv, 0);
            T::lemma_value(y, y);
        }
        x = y;
        proof {
            T::lemma_div(n, x);
            assert(trunc_div(m, x.as_int()) == m / x.as_int());
        }
        let q = n / x;
        proof {
            T::lemma_add(q, x);
            T::lemma_value(q, q);
        }
        let s = q + x;
        proof {
            T::lemma_div(s, i2);
            assert(trunc_div(s.as_int(), 2) == s.as_int() / 2);
        }
        y = s / i2;
    }
    x
}

} // verus!

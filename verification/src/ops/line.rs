//! Lines between positions.
use vstd::prelude::*;

use crate::integer::{trunc_div, Int};
use crate::internal::{abs, gcd, gcd_of, lemma_gcd};
use crate::layout::pos_views;
use crate::pos::Pos;

verus! {

/// The number of steps that lead from `start` to `end`: the greatest common
/// divisor of the distances along the two axes.
pub open spec fn step_count(start: (int, int), end: (int, int)) -> int {
    gcd_of(abs(end.0 - start.0), abs(end.1 - start.1)) as int
}

/// The step that leads from `start` towards `end`: the shortest step with
/// whole coordinates in that direction.
pub open spec fn step_of(start: (int, int), end: (int, int)) -> (int, int) {
    let count = step_count(start, end);
    if count == 0 {
        (0, 0)
    } else {
        (trunc_div(end.0 - start.0, count), trunc_div(end.1 - start.1, count))
    }
}

/// The positions with whole coordinates on the line from `start` to `end`,
/// both included; none where `start` is `end`.
pub open spec fn steps(start: (int, int), end: (int, int)) -> Seq<(int, int)> {
    let count = step_count(start, end);
    let step = step_of(start, end);
    Seq::new(
        (if count == 0 {
            0
        } else {
            count + 1
        }) as nat,
        |k: int| (start.0 + k * step.0, start.1 + k * step.1),
    )
}

/// Whether the line from `start` to `end` can be walked in `T`: `T` can
/// hold the distances along the two axes, their negations, and the position
/// one step behind `end`.
pub open spec fn line_fits<T: Int>(start: (int, int), end: (int, int)) -> bool {
    &&& -T::max_int() <= end.0 - start.0 <= T::max_int()
    &&& -T::max_int() <= end.1 - start.1 <= T::max_int()
    &&& T::min_int() <= end.0 - start.0
    &&& T::min_int() <= end.1 - start.1
    &&& Pos::<T>::holds(end.0 + step_of(start, end).0, end.1 + step_of(start, end).1)
}

/// The step, taken as many times as the line has steps, leads from `start`
/// to `end`, and it is not zero unless `start` is `end`.
pub proof fn lemma_step(start: (int, int), end: (int, int))
    ensures
        step_count(start, end) >= 0,
        step_count(start, end) * step_of(start, end).0 == end.0 - start.0,
        step_count(start, end) * step_of(start, end).1 == end.1 - start.1,
        step_count(start, end) > 0 ==> step_of(start, end) != (0int, 0int),
        step_count(start, end) == 0 ==> start == end,
{
    let dx = end.0 - start.0;
    let dy = end.1 - start.1;
    let g = step_count(start, end);
    lemma_gcd(abs(dx), abs(dy), 1);
    if g > 0 {
        lemma_exact(dx, g);
        lemma_exact(dy, g);
        if step_of(start, end) == (0int, 0int) {
            assert(g * 0 == 0) by (nonlinear_arith);
        }
    } else {
        assert(g * 0 == 0) by (nonlinear_arith);
    }
}

/// Dividing by a divisor and multiplying by it again gives the number back.
proof fn lemma_exact(v: int, g: int)
    requires
        g > 0,
        abs(v) % (g as nat) == 0,
    ensures
        g * trunc_div(v, g) == v,
{
    let a = abs(v) as int;
    vstd::arithmetic::div_mod::lemma_fundamental_div_mod(a, g);
    if v < 0 {
        assert(g * (-(a / g)) == -(g * (a / g))) by (nonlinear_arith);
    }
}

/// A multiple of `d` that takes `d` at most `n` times lies between zero and
/// `n` times `d`.
proof fn lemma_between(k: int, n: int, d: int)
    requires
        0 <= k <= n,
    ensures
        d >= 0 ==> 0 <= k * d <= n * d,
        d <= 0 ==> n * d <= k * d <= 0,
        (k + 1) * d == k * d + d,
        d != 0 && k != n ==> k * d != n * d,
{
    assert((d >= 0 ==> 0 <= k * d <= n * d) && (d <= 0 ==> n * d <= k * d <= 0) && (k + 1) * d
        == k * d + d && (d != 0 && k != n ==> k * d != n * d)) by (nonlinear_arith)
        requires
            0 <= k <= n,
    ;
}

/// Iterator over the positions on a line.
pub struct VectorIter<T: Int> {
    pos: Pos<T>,
    end: Pos<T>,
    dxy: Pos<T>,
    start: Ghost<(int, int)>,
    count: Ghost<int>,
    given: Ghost<int>,
}

impl<T: Int> VectorIter<T> {
    /// The position at which the line starts.
    pub closed spec fn start(&self) -> (int, int) {
        self.start@
    }

    /// The step from one position to the next.
    pub closed spec fn step(&self) -> (int, int) {
        self.dxy@
    }

    /// The number of positions on the line.
    pub closed spec fn count(&self) -> int {
        self.count@
    }

    /// The number of positions that were given.
    pub closed spec fn given(&self) -> int {
        self.given@
    }

    /// The current position is what the steps given so far lead to, and the
    /// walk ends one step behind the last position.
    pub closed spec fn wf(&self) -> bool {
        &&& 0 <= self.given@ <= self.count@
        &&& self.pos@ == (
            self.start@.0 + self.given@ * self.dxy@.0,
            self.start@.1 + self.given@ * self.dxy@.1,
        )
        &&& self.end@ == (
            self.start@.0 + self.count@ * self.dxy@.0,
            self.start@.1 + self.count@ * self.dxy@.1,
        )
        &&& self.count@ > 0 ==> self.dxy@ != (0int, 0int)
    }

    /// The positions that are still to come, in their order.
    pub open spec fn remaining(&self) -> Seq<(int, int)> {
        Seq::new(
            (self.count() - self.given()) as nat,
            |k: int|
                (
                    self.start().0 + (self.given() + k) * self.step().0,
                    self.start().1 + (self.given() + k) * self.step().1,
                ),
        )
    }

    /// Starts at `start`, on the way to `end`.
    pub fn new(start: Pos<T>, end: Pos<T>) -> (r: Self)
        requires
            line_fits::<T>(start@, end@),
        ensures
            r.wf(),
            r.remaining() == steps(start@, end@),
    {
        proof {
            T::lemma_limits();
            T::lemma_sub(end.x, start.x);
            T::lemma_sub(end.y, start.y);
            lemma_step(start@, end@);
        }
        let dx = end.x - start.x;
        let dy = end.y - start.y;
        let g = gcd(dx, dy);
        proof {
            T::lemma_order(g, T::ZERO);
            T::lemma_div(dx, g);
            T::lemma_div(dy, g);
            if g.as_int() != 0 {
                lemma_exact_bound(dx.as_int(), g.as_int());
                lemma_exact_bound(dy.as_int(), g.as_int());
            }
        }
        let dxy = if g == T::ZERO {
            Pos { x: T::ZERO, y: T::ZERO }
        } else {
            Pos { x: dx / g, y: dy / g }
        };
        proof {
            T::lemma_add(end.x, dxy.x);
            T::lemma_add(end.y, dxy.y);
        }
        let ghost count = if g.as_int() == 0 {
            0
        } else {
            g.as_int() + 1
        };
        let r = VectorIter {
            pos: start,
            end: Pos { x: end.x + dxy.x, y: end.y + dxy.y },
            dxy,
            start: Ghost(start@),
            count: Ghost(count),
            given: Ghost(0),
        };
        proof {
            lemma_between(g.as_int(), g.as_int(), dxy@.0);
            lemma_between(g.as_int(), g.as_int(), dxy@.1);
            assert(0 * dxy@.0 == 0 && 0 * dxy@.1 == 0) by (nonlinear_arith);
            assert(g.as_int() * dxy@.0 == dxy@.0 * g.as_int()) by (nonlinear_arith);
            assert(g.as_int() * dxy@.1 == dxy@.1 * g.as_int()) by (nonlinear_arith);
            assert(r.remaining() =~= steps(start@, end@));
        }
        r
    }

    /// Gives the next position, or `None` once all were given.
    pub fn next(&mut self) -> (r: Option<Pos<T>>)
        requires
            old(self).wf(),
        ensures
            final(self).wf(),
            old(self).remaining().len() == 0 ==> r.is_none() && final(self).remaining() == old(self).remaining(),
            old(self).remaining().len() > 0 ==> r.is_some() && r.unwrap()@ == old(self).remaining()[0] && final(self).remaining() == old(self).remaining().skip(1),
    {
        let ghost k = self.given@;
        let ghost n = self.count@;
        let ghost d = self.dxy@;
        proof {
            T::lemma_order(self.pos.x, self.end.x);
            T::lemma_order(self.pos.y, self.end.y);
            lemma_between(k, n, d.0);
            lemma_between(k, n, d.1);
            assert(k * d.0 == 0 + k * d.0);
        }
        if self.pos.x == self.end.x && self.pos.y == self.end.y {
            return None;
        }
        let current = self.pos;
        proof {
            lemma_between(k + 1, n, d.0);
            lemma_between(k + 1, n, d.1);
            T::lemma_value(self.pos.x, self.end.x);
            T::lemma_value(self.pos.y, self.end.y);
            T::lemma_value(self.end.x, self.end.y);
            T::lemma_value(self.end.y, self.end.x);
            T::lemma_add(self.pos.x, self.dxy.x);
            T::lemma_add(self.pos.y, self.dxy.y);
        }
        self.pos.x = current.x + self.dxy.x;
        self.pos.y = current.y + self.dxy.y;
        self.given = Ghost(k + 1);
        proof {
            assert(current@ == old(self).remaining()[0]);
            assert(self.remaining() =~= old(self).remaining().skip(1));
        }
        Some(current)
    }
}

/// A number divided by one of its divisors lies no farther from zero than
/// the number itself.
proof fn lemma_exact_bound(v: int, g: int)
    requires
        g > 0,
    ensures
        abs(trunc_div(v, g)) <= abs(v),
{
    crate::integer::lemma_trunc_bounds(v, g);
}

/// Returns the positions on the line from `start` to `end`, both included.
///
/// The positions lie one shortest step with whole coordinates apart. Where
/// `start` is `end`, there is none.
pub fn vector<T: Int>(start: Pos<T>, end: Pos<T>) -> (r: Vec<Pos<T>>)
    requires
        line_fits::<T>(start@, end@),
    ensures
        pos_views(r@) == steps(start@, end@),
{
    let mut iter = VectorIter::new(start, end);
    let mut out: Vec<Pos<T>> = Vec::new();
    loop
        invariant
            iter.wf(),
            pos_views(out@) + iter.remaining() == steps(start@, end@),
        ensures
            pos_views(out@) == steps(start@, end@),
        decreases iter.remaining().len(),
    {
        let ghost before = pos_views(out@);
        let ghost rest = iter.remaining();
        let next = iter.next();
        if next.is_none() {
            proof {
                assert(pos_views(out@) =~= pos_views(out@) + rest);
            }
            break ;
        }
        out.push(next.unwrap());
        proof {
            assert(pos_views(out@) =~= before.push(rest[0]));
            assert(before.push(rest[0]) + rest.skip(1) =~= before + rest);
        }
    }
    out
}

} // verus!

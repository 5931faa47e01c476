//! Reading many elements of a grid at once.
use vstd::prelude::*;

use crate::grid::{cell_at, GridRead, GridReadUnchecked};
use crate::pos::{Pos, TryFromPosError, TryIntoPos};

verus! {

/// What the conversions of `positions` give, in their order.
pub open spec fn converted<P: TryIntoPos<usize>>(positions: Seq<P>) -> Seq<
    Result<Pos<usize>, TryFromPosError>,
> {
    Seq::new(positions.len(), |i: int| positions[i].try_into_pos_spec())
}

/// The positions of `at` at which `cells` holds an element, each with that
/// element, in the order of `at`.
pub open spec fn picked<E>(
    cells: Map<(int, int), E>,
    at: Seq<Result<Pos<usize>, TryFromPosError>>,
) -> Seq<(Pos<usize>, E)>
    decreases at.len(),
{
    if at.len() == 0 {
        Seq::empty()
    } else {
        let before = picked(cells, at.drop_last());
        match cell_at(cells, at.last()) {
            Some(e) => before.push((at.last().unwrap(), e)),
            None => before,
        }
    }
}

/// The elements that a sequence of references points to.
pub open spec fn values<E>(refs: Seq<&E>) -> Seq<E> {
    Seq::new(refs.len(), |i: int| *refs[i])
}

/// The positions and the elements that a sequence of positions with
/// references points to.
pub open spec fn placed_values<E>(refs: Seq<(Pos<usize>, &E)>) -> Seq<(Pos<usize>, E)> {
    Seq::new(refs.len(), |i: int| (refs[i].0, *refs[i].1))
}

/// The elements of a sequence of positions with elements.
pub open spec fn elements<E>(placed: Seq<(Pos<usize>, E)>) -> Seq<E> {
    Seq::new(placed.len(), |i: int| placed[i].1)
}

/// Returns the elements of the grid at the given positions, in their order.
///
/// Positions at which the grid holds nothing are left out.
pub fn iter_from_pos<'a, G: GridRead, P: TryIntoPos<usize> + Copy>(
    grid: &'a G,
    pos: &Vec<P>,
) -> (r: Vec<&'a G::Element>)
    requires
        grid.wf(),
    ensures
        values(r@) == elements(picked(grid.cells(), converted(pos@))),
{
    let mut out: Vec<&'a G::Element> = Vec::new();
    let ghost all = converted(pos@);
    let mut i: usize = 0;
    proof {
        assert(all.subrange(0, 0) =~= Seq::empty());
        assert(values(out@) =~= elements(picked(grid.cells(), all.subrange(0, 0))));
    }
    while i < pos.len()
        invariant
            grid.wf(),
            i <= pos.len(),
            all == converted(pos@),
            values(out@) == elements(picked(grid.cells(), all.subrange(0, i as int))),
        decreases pos.len() - i,
    {
        let ghost before = values(out@);
        proof {
            assert(all.subrange(0, i + 1).drop_last() =~= all.subrange(0, i as int));
            assert(all.subrange(0, i + 1).last() == all[i as int]);
        }
        match grid.get(pos[i]) {
            Some(elem) => {
                out.push(elem);
                proof {
                    assert(values(out@) =~= before.push(*elem));
                    assert(values(out@) =~= elements(
                        picked(grid.cells(), all.subrange(0, i + 1)),
                    ));
                }
            },
            None => {},
        }
        i += 1;
    }
    proof {
        assert(all.subrange(0, i as int) =~= all);
    }
    out
}

/// Returns the positions, out of the given ones, at which the grid holds an
/// element, each with that element, in their order.
pub fn iter_with_pos<'a, G: GridRead, P: TryIntoPos<usize> + Copy>(grid: &'a G, pos: &Vec<P>) -> (r:
    Vec<(Pos<usize>, &'a G::Element)>)
    requires
        grid.wf(),
    ensures
        placed_values(r@) == picked(grid.cells(), converted(pos@)),
{
    let mut out: Vec<(Pos<usize>, &'a G::Element)> = Vec::new();
    let ghost all = converted(pos@);
    let mut i: usize = 0;
    proof {
        assert(all.subrange(0, 0) =~= Seq::empty());
        assert(placed_values(out@) =~= picked(grid.cells(), all.subrange(0, 0)));
    }
    while i < pos.len()
        invariant
            grid.wf(),
            i <= pos.len(),
            all == converted(pos@),
            placed_values(out@) == picked(grid.cells(), all.subrange(0, i as int)),
        decreases pos.len() - i,
    {
        let ghost before = placed_values(out@);
        proof {
            assert(all.subrange(0, i + 1).drop_last() =~= all.subrange(0, i as int));
            assert(all.subrange(0, i + 1).last() == all[i as int]);
        }
        match pos[i].try_into_pos() {
            Ok(at) => {
                proof {
                    at.lemma_view(at);
                }
                match grid.get(at) {
                    Some(elem) => {
                        out.push((at, elem));
                        proof {
                            assert(placed_values(out@) =~= before.push((at, *elem)));
                        }
                    },
                    None => {},
                }
            },
            Err(_) => {},
        }
        i += 1;
    }
    proof {
        assert(all.subrange(0, i as int) =~= all);
    }
    out
}

/// Whether the grid holds an element at every position that a conversion
/// of `at` gave.
pub open spec fn all_within<E>(
    cells: Map<(int, int), E>,
    at: Seq<Result<Pos<usize>, TryFromPosError>>,
) -> bool {
    forall|i: int| 0 <= i < at.len() && (#[trigger] at[i]).is_ok() ==> cells.dom().contains(
        at[i].unwrap()@,
    )
}

/// Returns the elements of the grid at the given positions, in their order.
///
/// The grid must hold an element at every position given.
pub fn iter_from_pos_unchecked<'a, G: GridReadUnchecked, P: TryIntoPos<usize> + Copy>(
    grid: &'a G,
    pos: &Vec<P>,
) -> (r: Vec<&'a G::Element>)
    requires
        grid.wf(),
        all_within(grid.cells(), converted(pos@)),
    ensures
        values(r@) == elements(picked(grid.cells(), converted(pos@))),
{
    let mut out: Vec<&'a G::Element> = Vec::new();
    let ghost all = converted(pos@);
    let mut i: usize = 0;
    proof {
        assert(all.subrange(0, 0) =~= Seq::empty());
        assert(values(out@) =~= elements(picked(grid.cells(), all.subrange(0, 0))));
    }
    while i < pos.len()
        invariant
            grid.wf(),
            i <= pos.len(),
            all == converted(pos@),
            all_within(grid.cells(), all),
            values(out@) == elements(picked(grid.cells(), all.subrange(0, i as int))),
        decreases pos.len() - i,
    {
        let ghost before = values(out@);
        proof {
            assert(all.subrange(0, i + 1).drop_last() =~= all.subrange(0, i as int));
            assert(all.subrange(0, i + 1).last() == all[i as int]);
        }
        match pos[i].try_into_pos() {
            Ok(at) => {
                proof {
                    assert(all[i as int].is_ok());
                }
                let elem = grid.get_unchecked(at.x, at.y);
                out.push(elem);
                proof {
                    assert(values(out@) =~= before.push(*elem));
                    assert(values(out@) =~= elements(
                        picked(grid.cells(), all.subrange(0, i + 1)),
                    ));
                }
            },
            Err(_) => {},
        }
        i += 1;
    }
    proof {
        assert(all.subrange(0, i as int) =~= all);
    }
    out
}

/// Returns the given positions, each with the element that the grid holds
/// there, in their order.
///
/// The grid must hold an element at every position given.
pub fn iter_with_pos_unchecked<'a, G: GridReadUnchecked, P: TryIntoPos<usize> + Copy>(
    grid: &'a G,
    pos: &Vec<P>,
) -> (r: Vec<(Pos<usize>, &'a G::Element)>)
    requires
        grid.wf(),
        all_within(grid.cells(), converted(pos@)),
    ensures
        placed_values(r@) == picked(grid.cells(), converted(pos@)),
{
    let mut out: Vec<(Pos<usize>, &'a G::Element)> = Vec::new();
    let ghost all = converted(pos@);
    let mut i: usize = 0;
    proof {
        assert(all.subrange(0, 0) =~= Seq::empty());
        assert(placed_values(out@) =~= picked(grid.cells(), all.subrange(0, 0)));
    }
    while i < pos.len()
        invariant
            grid.wf(),
            i <= pos.len(),
            all == converted(pos@),
            all_within(grid.cells(), all),
            placed_values(out@) == picked(grid.cells(), all.subrange(0, i as int)),
        decreases pos.len() - i,
    {
        let ghost before = placed_values(out@);
        proof {
            assert(all.subrange(0, i + 1).drop_last() =~= all.subrange(0, i as int));
            assert(all.subrange(0, i + 1).last() == all[i as int]);
        }
        match pos[i].try_into_pos() {
            Ok(at) => {
                proof {
                    assert(all[i as int].is_ok());
                }
                let elem = grid.get_unchecked(at.x, at.y);
                out.push((at, elem));
                proof {
                    assert(placed_values(out@) =~= before.push((at, *elem)));
                }
            },
            Err(_) => {},
        }
        i += 1;
    }
    proof {
        assert(all.subrange(0, i as int) =~= all);
    }
    out
}

} // verus!

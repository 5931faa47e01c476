//! Layouts that are made of tiles.
use core::marker::PhantomData;
use core::ops::Range;
use vstd::prelude::*;

use crate::integer::Int;
use crate::layout::row_major::{row_major_blocks, row_major_cell, row_major_tile};
use crate::layout::{
    cut, cut_mut, lemma_floor, lemma_floor_rest, lemma_product_order, lemma_quotient, pos_views,
    rect_views, tiles_within, Linear, RowMajor, Traversal,
};
use crate::pos::Pos;
use crate::rect::{Bounds, Rect};
use crate::size::Size;

verus! {

/// The cells of each of `tiles`, in the order in which `C` visits them.
pub open spec fn tile_positions<C: Traversal>(tiles: Seq<Bounds>) -> Seq<Seq<(int, int)>> {
    Seq::new(tiles.len(), |i: int| C::positions(tiles[i]))
}

/// The blocks of `w` by `h` cells of each of `tiles`, in the order in which
/// `C` visits them.
pub open spec fn tile_blocks<C: Traversal>(tiles: Seq<Bounds>, w: int, h: int) -> Seq<
    Seq<Bounds>,
> {
    Seq::new(tiles.len(), |i: int| C::blocks(tiles[i], w, h))
}

/// The offset of the cell `p` where tiles of `w` by `h` cells lie one after
/// the other: the offset of its tile among the tiles, as `G` counts them in
/// rows of `width / w` tiles, times the cells of a tile, and the offset of the
/// cell within its tile, as `C` counts it.
pub open spec fn block_index<G: Linear, C: Linear>(p: (int, int), width: int, w: int, h: int) -> int {
    G::index_of((p.0 / w, p.1 / h), width / w) * (w * h) + C::index_of((p.0 % w, p.1 % h), w)
}

/// The cell at the offset `index` where tiles of `w` by `h` cells lie one
/// after the other.
pub open spec fn block_pos<G: Linear, C: Linear>(index: int, width: int, w: int, h: int) -> (
    int,
    int,
) {
    let at = G::pos_of(index / (w * h), width / w);
    let cell = C::pos_of(index % (w * h), w);
    (at.0 * w + cell.0, at.1 * h + cell.1)
}

/// Whether the width and the height of `b` are multiples of `w` and `h`.
pub open spec fn block_aligned(b: Bounds, w: int, h: int) -> bool {
    b.width() % w == 0 && b.height() % h == 0
}

/// The number of elements that come before the elements of the sequence `i`
/// in the flattened sequence.
pub open spec fn flat_offset<A>(parts: Seq<Seq<A>>, i: int) -> int {
    parts.subrange(0, i).flatten().len() as int
}

/// The elements of the sequence `i` come right behind those of the
/// sequences before it.
pub proof fn lemma_flat_step<A>(parts: Seq<Seq<A>>, i: int)
    requires
        0 <= i < parts.len(),
    ensures
        parts.subrange(0, i + 1).flatten() == parts.subrange(0, i).flatten() + parts[i],
        flat_offset(parts, i + 1) == flat_offset(parts, i) + parts[i].len(),
        flat_offset(parts, 0) == 0,
{
    assert(parts.subrange(0, i + 1) =~= parts.subrange(0, i).push(parts[i]));
    parts.subrange(0, i).lemma_flatten_push(parts[i]);
    assert(parts.subrange(0, 0) =~= Seq::<Seq<A>>::empty());
}

/// The flattened sequence starts with what the first `i` sequences hold.
pub proof fn lemma_flat_prefix<A>(parts: Seq<Seq<A>>, i: int)
    requires
        0 <= i <= parts.len(),
    ensures
        flat_offset(parts, i) <= parts.flatten().len(),
        parts.flatten().subrange(0, flat_offset(parts, i)) == parts.subrange(0, i).flatten(),
        flat_offset(parts, parts.len() as int) == parts.flatten().len(),
    decreases parts.len() - i,
{
    assert(parts.subrange(0, parts.len() as int) =~= parts);
    if i == parts.len() {
        assert(parts.flatten().subrange(0, flat_offset(parts, i)) =~= parts.flatten());
    } else {
        lemma_flat_step(parts, i);
        lemma_flat_prefix(parts, i + 1);
        assert(parts.flatten().subrange(0, flat_offset(parts, i)) =~= parts.subrange(
            0,
            i,
        ).flatten());
    }
}

/// The element `j` of the sequence `i` stands in the flattened sequence `j`
/// places behind the offset of the sequence `i`.
pub proof fn lemma_flat_at<A>(parts: Seq<Seq<A>>, i: int, j: int)
    requires
        0 <= i < parts.len(),
        0 <= j < parts[i].len(),
    ensures
        0 <= flat_offset(parts, i) + j < parts.flatten().len(),
        parts.flatten()[flat_offset(parts, i) + j] == parts[i][j],
{
    lemma_flat_step(parts, i);
    lemma_flat_prefix(parts, i + 1);
    let whole = parts.flatten();
    let k = flat_offset(parts, i) + j;
    assert(whole.subrange(0, flat_offset(parts, i + 1))[k] == whole[k]);
}

/// Looks for the sequence that holds the element with the number `k` of the
/// flattened sequence, from the sequence `i` on.
proof fn lemma_flat_find<A>(parts: Seq<Seq<A>>, k: int, i: int) -> (at: (int, int))
    requires
        0 <= i < parts.len(),
        flat_offset(parts, i) <= k < parts.flatten().len(),
    ensures
        0 <= at.0 < parts.len(),
        0 <= at.1 < parts[at.0].len(),
        k == flat_offset(parts, at.0) + at.1,
        parts.flatten()[k] == parts[at.0][at.1],
    decreases parts.len() - i,
{
    lemma_flat_step(parts, i);
    lemma_flat_prefix(parts, i + 1);
    if k < flat_offset(parts, i + 1) {
        lemma_flat_at(parts, i, k - flat_offset(parts, i));
        (i, k - flat_offset(parts, i))
    } else {
        lemma_flat_find(parts, k, i + 1)
    }
}

/// An element of a flattened sequence comes from one of the sequences: the
/// element with the number `k` is the element `at.1` of the sequence `at.0`.
pub proof fn lemma_flat_origin<A>(parts: Seq<Seq<A>>, k: int) -> (at: (int, int))
    requires
        0 <= k < parts.flatten().len(),
    ensures
        0 <= at.0 < parts.len(),
        0 <= at.1 < parts[at.0].len(),
        k == flat_offset(parts, at.0) + at.1,
        parts.flatten()[k] == parts[at.0][at.1],
{
    assert(parts.subrange(0, 0) =~= Seq::<Seq<A>>::empty());
    lemma_flat_find(parts, k, 0)
}

/// A later sequence starts at or behind the end of an earlier one.
pub proof fn lemma_flat_order<A>(parts: Seq<Seq<A>>, i: int, j: int)
    requires
        0 <= i < j < parts.len(),
    ensures
        flat_offset(parts, i) + parts[i].len() <= flat_offset(parts, j),
    decreases j - i,
{
    lemma_flat_step(parts, i);
    if i + 1 < j {
        lemma_flat_order(parts, i + 1, j);
    }
}

/// Where every sequence holds `n` elements, the sequence `i` starts at the
/// offset `i * n`.
pub proof fn lemma_flat_uniform<A>(parts: Seq<Seq<A>>, n: int, i: int)
    requires
        0 <= i <= parts.len(),
        forall|t: int| 0 <= t < parts.len() ==> (#[trigger] parts[t]).len() == n,
    ensures
        flat_offset(parts, i) == i * n,
    decreases i,
{
    if i > 0 {
        lemma_flat_uniform(parts, n, i - 1);
        lemma_flat_step(parts, i - 1);
        assert(i * n == (i - 1) * n + n) by (nonlinear_arith);
    } else {
        assert(parts.subrange(0, 0) =~= Seq::<Seq<A>>::empty());
    }
}

/// 2D space divided into blocks, each containing a grid of cells.
///
/// Each block is `W` cells wide and `H` cells high. The blocks are visited in
/// the order of the layout `G`, and the cells within a block in the order of
/// the layout `C`; by default, both are `RowMajor`.
///
/// For example, `Block<2, 2, RowMajor, RowMajor>` (a block-size of 2x2, with row-major traversals):
///
/// ```txt
/// B0:   B1:
/// +----+----+
/// | 01 | 45 |
/// | 23 | 67 |
/// +----+----+
/// B2:   B3:
/// +----+----+
/// | 89 | CD |
/// | AB | EF |
/// +----+----+
/// ```
pub struct Block<const W: usize, const H: usize, G = RowMajor, C = G> {
    grid: PhantomData<G>,
    cell: PhantomData<C>,
}

impl<const W: usize, const H: usize, G, C> Block<W, H, G, C> {
    /// The layout as a value. A layout holds no data of its own: the size of
    /// its blocks and its two orders are written in its type.
    pub closed spec fn value() -> Self {
        Block { grid: PhantomData, cell: PhantomData }
    }

    /// The size of a block of the layout.
    pub open spec fn spec_block_size(self) -> Size {
        Size { width: W, height: H }
    }

    /// Creates the layout.
    pub fn new() -> (r: Self)
        ensures
            r == Self::value(),
            r.spec_block_size() == (Size { width: W, height: H }),
    {
        Block { grid: PhantomData, cell: PhantomData }
    }

    /// Returns the size of a block.
    pub fn block_size() -> (r: Size)
        ensures
            r == (Size { width: W, height: H }),
    {
        Size { width: W, height: H }
    }

    /// Returns the layout with the same blocks, visited in the order of `G2`.
    ///
    /// The size of the blocks and the order of the cells within a block stay
    /// as they are.
    pub fn with_grid<G2>(self) -> (r: Block<W, H, G2, C>)
        ensures
            r == Block::<W, H, G2, C>::value(),
            r.spec_block_size() == self.spec_block_size(),
    {
        Block { grid: PhantomData, cell: PhantomData }
    }

    /// Returns the layout with the same blocks, whose cells are visited in the
    /// order of `C2`.
    ///
    /// The size of the blocks and the order of the blocks stay as they are.
    pub fn with_cell<C2>(self) -> (r: Block<W, H, G, C2>)
        ensures
            r == Block::<W, H, G, C2>::value(),
            r.spec_block_size() == self.spec_block_size(),
    {
        Block { grid: PhantomData, cell: PhantomData }
    }
}

impl<const W: usize, const H: usize, G: Traversal, C: Traversal> Traversal for Block<W, H, G, C> {
    open spec fn well_formed() -> bool {
        W > 0 && H > 0 && G::well_formed() && C::well_formed()
    }

    open spec fn positions(b: Bounds) -> Seq<(int, int)> {
        tile_positions::<C>(G::blocks(b, W as int, H as int)).flatten()
    }

    open spec fn blocks(b: Bounds, w: int, h: int) -> Seq<Bounds> {
        tile_blocks::<C>(G::blocks(b, W as int, H as int), w, h).flatten()
    }

    open spec fn fills(width: int, height: int) -> bool {
        G::fills_with(width, height, W as int, H as int) && C::fills(W as int, H as int)
    }

    open spec fn fills_with(width: int, height: int, w: int, h: int) -> bool {
        G::fills_with(width, height, W as int, H as int) && C::fills_with(
            W as int,
            H as int,
            w,
            h,
        )
    }

    /// Returns the positions in the specified rectangle.
    ///
    /// The positions are returned block by block, in the order of `G`, and
    /// within each block in the order of `C`.
    ///
    /// ```txt
    /// (0, 0) (1, 0) | (2, 0) (3, 0)
    /// (0, 1) (1, 1) | (2, 1) (3, 1)
    /// -----------------------------
    /// (0, 2) (1, 2) | (2, 2) (3, 2)
    /// (0, 3) (1, 3) | (2, 3) (3, 3)
    /// ```
    fn iter_pos<T: Int>(rect: Rect<T>) -> (r: Vec<Pos<T>>) {
        let tiles = G::iter_rect(rect, Size { width: W, height: H });
        let ghost regions = G::blocks(rect@, W as int, H as int);
        let mut out: Vec<Pos<T>> = Vec::new();
        let mut i: usize = 0;
        proof {
            G::lemma_blocks(rect@, W as int, H as int);
            assert(tile_positions::<C>(regions.subrange(0, 0)) =~= Seq::empty());
            assert(pos_views(out@) =~= Seq::empty());
        }
        while i < tiles.len()
            invariant
                Self::well_formed(),
                rect.sized(),
                i <= tiles.len(),
                rect_views(tiles@) == regions,
                tiles_within(regions, rect@, W as int, H as int),
                pos_views(out@) == tile_positions::<C>(regions.subrange(0, i as int)).flatten(),
            decreases tiles.len() - i,
        {
            let tile = tiles[i];
            let ghost before = pos_views(out@);
            proof {
                assert(tile@ == regions[i as int]);
            }
            let mut cells = C::iter_pos(tile);
            let ghost added = pos_views(cells@);
            out.append(&mut cells);
            proof {
                let parts = tile_positions::<C>(regions.subrange(0, i as int));
                assert(tile_positions::<C>(regions.subrange(0, i + 1)) =~= parts.push(added));
                parts.lemma_flatten_push(added);
                assert(pos_views(out@) =~= before + added);
            }
            i += 1;
        }
        proof {
            assert(regions.subrange(0, i as int) =~= regions);
        }
        out
    }

    /// Returns the (sub-)blocks of the specified size within the rectangle.
    ///
    /// Blocks that would be partially outside the outer or inner rectangles are not returned.
    fn iter_rect<T: Int>(rect: Rect<T>, size: Size) -> (r: Vec<Rect<T>>) {
        let tiles = G::iter_rect(rect, Size { width: W, height: H });
        let ghost regions = G::blocks(rect@, W as int, H as int);
        let ghost w = size.width as int;
        let ghost h = size.height as int;
        let mut out: Vec<Rect<T>> = Vec::new();
        let mut i: usize = 0;
        proof {
            G::lemma_blocks(rect@, W as int, H as int);
            assert(tile_blocks::<C>(regions.subrange(0, 0), w, h) =~= Seq::empty());
            assert(rect_views(out@) =~= Seq::empty());
        }
        while i < tiles.len()
            invariant
                Self::well_formed(),
                rect.sized(),
                size.width > 0,
                size.height > 0,
                w == size.width,
                h == size.height,
                i <= tiles.len(),
                rect_views(tiles@) == regions,
                tiles_within(regions, rect@, W as int, H as int),
                rect_views(out@) == tile_blocks::<C>(regions.subrange(0, i as int), w, h).flatten(),
            decreases tiles.len() - i,
        {
            let tile = tiles[i];
            let ghost before = rect_views(out@);
            proof {
                assert(tile@ == regions[i as int]);
            }
            let mut blocks = C::iter_rect(tile, size);
            let ghost added = rect_views(blocks@);
            out.append(&mut blocks);
            proof {
                let parts = tile_blocks::<C>(regions.subrange(0, i as int), w, h);
                assert(tile_blocks::<C>(regions.subrange(0, i + 1), w, h) =~= parts.push(added));
                parts.lemma_flatten_push(added);
                assert(rect_views(out@) =~= before + added);
            }
            i += 1;
        }
        proof {
            assert(regions.subrange(0, i as int) =~= regions);
        }
        out
    }

    proof fn lemma_positions(b: Bounds) {
        let w = W as int;
        let h = H as int;
        let regions = G::blocks(b, w, h);
        let parts = tile_positions::<C>(regions);
        let all = parts.flatten();
        G::lemma_blocks(b, w, h);
        assert forall|k: int| 0 <= k < all.len() implies b.contains(#[trigger] all[k]) by {
            let at = lemma_flat_origin(parts, k);
            C::lemma_positions(regions[at.0]);
            assert(all[k] == C::positions(regions[at.0])[at.1]);
        }
        assert forall|k1: int, k2: int|
            0 <= k1 < all.len() && 0 <= k2 < all.len() && k1 != k2 implies all[k1] != all[k2] by {
            let a1 = lemma_flat_origin(parts, k1);
            let a2 = lemma_flat_origin(parts, k2);
            C::lemma_positions(regions[a1.0]);
            C::lemma_positions(regions[a2.0]);
            let c1 = C::positions(regions[a1.0])[a1.1];
            let c2 = C::positions(regions[a2.0])[a2.1];
            assert(all[k1] == c1 && all[k2] == c2);
            assert(regions[a1.0].contains(c1));
            assert(regions[a2.0].contains(c2));
        }
        if Self::fills(b.width(), b.height()) {
            assert forall|t: int| 0 <= t < parts.len() implies (#[trigger] parts[t]).len() == w
                * h by {
                C::lemma_positions(regions[t]);
            }
            lemma_flat_uniform(parts, w * h, parts.len() as int);
            lemma_flat_prefix(parts, parts.len() as int);
            assert forall|p: (int, int)| #[trigger] b.contains(p) implies all.contains(p) by {
                let i = choose|i: int| 0 <= i < regions.len() && (#[trigger] regions[i].contains(p));
                C::lemma_positions(regions[i]);
                let cells = C::positions(regions[i]);
                assert(regions[i].contains(p));
                assert(cells.contains(p));
                let j = choose|j: int| 0 <= j < cells.len() && cells[j] == p;
                lemma_flat_at(parts, i, j);
            }
        }
    }

    proof fn lemma_blocks(b: Bounds, w: int, h: int) {
        let regions = G::blocks(b, W as int, H as int);
        let parts = tile_blocks::<C>(regions, w, h);
        let all = parts.flatten();
        G::lemma_blocks(b, W as int, H as int);
        assert forall|k: int| 0 <= k < all.len() implies (#[trigger] all[k]).width() == w
            && all[k].height() == h && b.contains_bounds(all[k]) by {
            let at = lemma_flat_origin(parts, k);
            let region = regions[at.0];
            C::lemma_blocks(region, w, h);
            assert(parts[at.0] == C::blocks(region, w, h));
            assert(all[k] == C::blocks(region, w, h)[at.1]);
        }
        assert forall|k1: int, k2: int, p: (int, int)|
            0 <= k1 < k2 < all.len() && (#[trigger] all[k1].contains(p)) implies !(
            #[trigger] all[k2].contains(p)) by {
            let a1 = lemma_flat_origin(parts, k1);
            let a2 = lemma_flat_origin(parts, k2);
            C::lemma_blocks(regions[a1.0], w, h);
            C::lemma_blocks(regions[a2.0], w, h);
            let t1 = C::blocks(regions[a1.0], w, h)[a1.1];
            let t2 = C::blocks(regions[a2.0], w, h)[a2.1];
            assert(all[k1] == t1 && all[k2] == t2);
            if t2.contains(p) {
                assert(regions[a1.0].contains(p));
                assert(regions[a2.0].contains(p));
                if a1.0 == a2.0 {
                    assert(a1.1 < a2.1);
                    assert(t1.contains(p));
                } else if a1.0 > a2.0 {
                    lemma_flat_order(parts, a2.0, a1.0);
                }
            }
        }
        if Self::fills_with(b.width(), b.height(), w, h) {
            assert forall|p: (int, int)| #[trigger] b.contains(p) implies exists|k: int|
                0 <= k < all.len() && (#[trigger] all[k].contains(p)) by {
                let i = choose|i: int| 0 <= i < regions.len() && (#[trigger] regions[i].contains(p));
                C::lemma_blocks(regions[i], w, h);
                let inner = C::blocks(regions[i], w, h);
                assert(regions[i].contains(p));
                let j = choose|j: int| 0 <= j < inner.len() && (#[trigger] inner[j].contains(p));
                lemma_flat_at(parts, i, j);
                assert(all[flat_offset(parts, i) + j].contains(p));
            }
            if parts.len() > 0 {
                let n = parts[0].len() as int;
                assert forall|t: int| 0 <= t < parts.len() implies (#[trigger] parts[t]).len()
                    == n by {
                    C::lemma_blocks(regions[t], w, h);
                    C::lemma_blocks(regions[0], w, h);
                    assert(parts[t].len() == n) by (nonlinear_arith)
                        requires
                            parts[t].len() * (w * h) == n * (w * h),
                            w > 0,
                            h > 0,
                    ;
                }
                lemma_flat_uniform(parts, n, parts.len() as int);
                lemma_flat_prefix(parts, parts.len() as int);
                C::lemma_blocks(regions[0], w, h);
                assert(all.len() * (w * h) == b.area()) by (nonlinear_arith)
                    requires
                        all.len() == parts.len() * n,
                        n * (w * h) == W * H,
                        parts.len() * (W * H) == b.area(),
                ;
            } else {
                lemma_flat_prefix(parts, 0);
                assert(parts.len() * (W * H) == 0) by (nonlinear_arith)
                    requires
                        parts.len() == 0,
                ;
            }
        }
    }
}

impl<const W: usize, const H: usize, G: Linear, C: Linear> Linear for Block<W, H, G, C> {
    open spec fn index_req(p: (int, int), width: int) -> bool {
        &&& W * H <= usize::MAX
        &&& width % (W as int) == 0
        &&& G::index_req((p.0 / (W as int), p.1 / (H as int)), width / (W as int))
        &&& C::index_req((p.0 % (W as int), p.1 % (H as int)), W as int)
        &&& block_index::<G, C>(p, width, W as int, H as int) <= usize::MAX
    }

    open spec fn index_of(p: (int, int), width: int) -> int {
        block_index::<G, C>(p, width, W as int, H as int)
    }

    open spec fn pos_req(index: int, width: int) -> bool {
        let at = G::pos_of(index / (W * H), width / (W as int));
        let cell = C::pos_of(index % (W * H), W as int);
        &&& W * H <= usize::MAX
        &&& width % (W as int) == 0
        &&& G::pos_req(index / (W * H), width / (W as int))
        &&& C::pos_req(index % (W * H), W as int)
        &&& at.0 * W + cell.0 <= usize::MAX
        &&& at.1 * H + cell.1 <= usize::MAX
    }

    open spec fn pos_of(index: int, width: int) -> (int, int) {
        block_pos::<G, C>(index, width, W as int, H as int)
    }

    open spec fn invertible(p: (int, int), width: int) -> bool {
        let at = (p.0 / (W as int), p.1 / (H as int));
        let cell = (p.0 % (W as int), p.1 % (H as int));
        &&& width % (W as int) == 0
        &&& G::invertible(at, width / (W as int))
        &&& C::invertible(cell, W as int)
        &&& 0 <= C::index_of(cell, W as int) < W * H
    }

    open spec fn axes(size: Size) -> int {
        G::axes(size)
    }

    open spec fn axis_len(size: Size) -> int {
        G::axis_len(size)
    }

    open spec fn range_req(size: Size, b: Bounds) -> bool {
        block_aligned(b, W as int, H as int) ==> {
            &&& 1 <= b.right
            &&& 1 <= b.bottom
            &&& size.spec_area() <= usize::MAX
            &&& Self::index_req((b.left, b.top), size.width as int)
            &&& Self::index_req((b.right - 1, b.bottom - 1), size.width as int)
            &&& Self::index_of((b.right - 1, b.bottom - 1), size.width as int) < usize::MAX
        }
    }

    open spec fn range_of(size: Size, b: Bounds) -> Option<(int, int)> {
        let start = Self::index_of((b.left, b.top), size.width as int);
        let end = Self::index_of((b.right - 1, b.bottom - 1), size.width as int) + 1;
        if block_aligned(b, W as int, H as int) && end <= size.spec_area() {
            Some((start, end))
        } else {
            None
        }
    }

    fn pos_to_index(pos: Pos<usize>, width: usize) -> (r: usize) {
        let block_x = pos.x / W;
        let block_y = pos.y / H;
        let cell_x = pos.x % W;
        let cell_y = pos.y % H;

        let block_pos = Pos::new(block_x, block_y);
        let cell_pos = Pos::new(cell_x, cell_y);

        let blocks_per_row = width / W;
        let block_offset = G::pos_to_index(block_pos, blocks_per_row);
        let cell_offset = C::pos_to_index(cell_pos, W);
        proof {
            lemma_product_order(0, block_offset as int, W * H);
            lemma_product_order(0, W as int, H as int);
        }
        block_offset * (W * H) + cell_offset
    }

    fn index_to_pos(index: usize, width: usize) -> (r: Pos<usize>) {
        proof {
            lemma_product_order(1, W as int, H as int);
        }
        let cells_per_block = W * H;
        let block_index = index / cells_per_block;
        let cell_index = index % cells_per_block;

        let block_grid_width = width / W;
        let block_pos = G::index_to_pos(block_index, block_grid_width);
        let cell_pos = C::index_to_pos(cell_index, W);
        proof {
            lemma_product_order(0, block_pos.x as int, W as int);
            lemma_product_order(0, block_pos.y as int, H as int);
        }
        Pos::new(block_pos.x * W + cell_pos.x, block_pos.y * H + cell_pos.y)
    }

    fn len_aligned(size: Size) -> (r: usize) {
        G::len_aligned(size)
    }

    fn rect_to_range(grid_size: Size, rect: Rect<usize>) -> (r: Option<Range<usize>>) {
        proof {
            rect.lemma_view(rect);
        }
        // Check if the rectangle is aligned to the block size
        if rect.width() % W != 0 || rect.height() % H != 0 {
            return None;
        }
        // Calculate the start and end indices based on the block layout
        let start = Self::pos_to_index(rect.top_left(), grid_size.width);
        let last = Pos::new(rect.right() - 1, rect.bottom() - 1);
        let end = Self::pos_to_index(last, grid_size.width) + 1;
        if end > grid_size.width * grid_size.height {
            return None;
        }
        Some(start..end)
    }

    fn slice_rect_aligned<'a, E>(slice: &'a [E], size: Size, rect: Rect<usize>) -> (r: Option<
        &'a [E],
    >) {
        let range = match Self::rect_to_range(size, rect) {
            Some(range) => range,
            None => { return None; },
        };
        if range.start > range.end || range.end > slice.len() {
            return None;
        }
        Some(cut(slice, range.start, range.end))
    }

    fn slice_rect_aligned_mut<'a, E>(slice: &'a mut [E], size: Size, rect: Rect<usize>) -> (r:
        Option<&'a mut [E]>) {
        let range = match Self::rect_to_range(size, rect) {
            Some(range) => range,
            None => { return None; },
        };
        if range.start > range.end || range.end > slice.len() {
            return None;
        }
        Some(cut_mut(slice, range.start, range.end))
    }

    fn slice_aligned<'a, E>(slice: &'a [E], size: Size, axis: usize) -> (r: &'a [E]) {
        G::slice_aligned(slice, size, axis)
    }

    fn slice_aligned_mut<'a, E>(slice: &'a mut [E], size: Size, axis: usize) -> (r: &'a mut [E]) {
        G::slice_aligned_mut(slice, size, axis)
    }

    proof fn lemma_inverse(p: (int, int), width: int) {
        let w = W as int;
        let h = H as int;
        let at = (p.0 / w, p.1 / h);
        let cell = (p.0 % w, p.1 % h);
        let g = G::index_of(at, width / w);
        let c = C::index_of(cell, w);
        lemma_floor(p.0, w);
        lemma_floor(p.1, h);
        lemma_quotient(g, c, w * h);
        G::lemma_inverse(at, width / w);
        C::lemma_inverse(cell, w);
    }
}

/// A layout of row-major tiles with row-major cells visits the cells of a
/// region that its tiles fill tile by tile: it gives the same cells as the
/// row-major order, and the cell `k` of the tile `t` comes at the place
/// `t * (W * H) + k`.
pub proof fn lemma_tile_grouped<const W: usize, const H: usize>(b: Bounds, t: int, k: int)
    requires
        W > 0,
        H > 0,
        b.wf(),
        b.width() % (W as int) == 0,
        b.height() % (H as int) == 0,
        0 <= t < (b.width() / (W as int)) * (b.height() / (H as int)),
        0 <= k < W * H,
    ensures
        ({
            let tiled = Block::<W, H, RowMajor, RowMajor>::positions(b);
            &&& tiled.len() == b.area()
            &&& forall|p: (int, int)| tiled.contains(p) <==> RowMajor::positions(b).contains(p)
            &&& 0 <= t * (W * H) + k < tiled.len()
            &&& tiled[t * (W * H) + k] == row_major_cell(
                row_major_tile(b, W as int, H as int, t),
                k,
            )
        }),
{
    let w = W as int;
    let h = H as int;
    let tiled = Block::<W, H, RowMajor, RowMajor>::positions(b);
    let plain = RowMajor::positions(b);
    let regions = row_major_blocks(b, w, h);
    let parts = tile_positions::<RowMajor>(regions);
    Block::<W, H, RowMajor, RowMajor>::lemma_positions(b);
    RowMajor::lemma_positions(b);
    RowMajor::lemma_blocks(b, w, h);
    assert forall|p: (int, int)| tiled.contains(p) <==> plain.contains(p) by {
        if tiled.contains(p) {
            let i = choose|i: int| 0 <= i < tiled.len() && tiled[i] == p;
            assert(b.contains(tiled[i]));
        }
        if plain.contains(p) {
            let i = choose|i: int| 0 <= i < plain.len() && plain[i] == p;
            assert(b.contains(plain[i]));
        }
    }
    assert forall|i: int| 0 <= i < parts.len() implies (#[trigger] parts[i]).len() == w * h by {
        assert(regions[i].width() == w);
        lemma_product_order(0, w, h);
    }
    lemma_product_order(0, w, h);
    lemma_flat_uniform(parts, w * h, t);
    lemma_flat_at(parts, t, k);
}

/// Whether the cells of `b` lie one after the other in a grid of `size` that
/// is made of row-major tiles of `w` by `h` cells: `b` starts at the corner
/// of a tile, is made of whole tiles, and is one tile high or as wide as the
/// grid.
pub open spec fn block_contiguous(size: Size, b: Bounds, w: int, h: int) -> bool {
    &&& size.width as int % w == 0
    &&& b.left % w == 0
    &&& b.top % h == 0
    &&& block_aligned(b, w, h)
    &&& 0 < b.width()
    &&& 0 < b.height()
    &&& (b.height() == h || (b.left == 0 && b.width() == size.width))
}

/// The offset of a cell that lies `left` cells behind the left edge of a
/// tile lies in the same place of the tile that is `left / w` tiles before.
proof fn lemma_shifted(v: int, left: int, w: int)
    requires
        0 < w,
        0 <= left <= v,
        left % w == 0,
    ensures
        (v - left) / w == v / w - left / w,
        (v - left) % w == v % w,
        0 <= left / w <= v / w,
        left == (left / w) * w,
{
    lemma_floor(left, w);
    lemma_floor(v, w);
    lemma_floor(v - left, w);
    lemma_floor_rest(v, w, left / w);
    if left / w > v / w {
        lemma_product_order(v / w + 1, left / w, w);
        lemma_product_order(v / w, v / w, w);
    }
    assert((v / w - left / w) * w == (v / w) * w - (left / w) * w) by (nonlinear_arith);
}

/// The cells of a rectangle of whole row-major tiles that lie one after the
/// other lie in linear data as a grid of their own: the part of the data
/// that the rectangle's range cuts out holds, at the offset that a cell has
/// within the rectangle, what the data holds at the offset that the cell has
/// within the grid.
pub proof fn lemma_block_round_trip<const W: usize, const H: usize, E>(
    data: Seq<E>,
    size: Size,
    b: Bounds,
    p: (int, int),
)
    requires
        W > 0,
        H > 0,
        b.wf(),
        0 <= b.left,
        0 <= b.top,
        block_contiguous(size, b, W as int, H as int),
        b.contains(p),
        Block::<W, H, RowMajor, RowMajor>::range_of(size, b).is_some(),
        Block::<W, H, RowMajor, RowMajor>::range_of(size, b).unwrap().1 <= data.len(),
    ensures
        ({
            let range = Block::<W, H, RowMajor, RowMajor>::range_of(size, b).unwrap();
            let part = data.subrange(range.0, range.1);
            let at = block_index::<RowMajor, RowMajor>(
                (p.0 - b.left, p.1 - b.top),
                b.width(),
                W as int,
                H as int,
            );
            &&& 0 <= range.0 <= range.1
            &&& part.len() == b.area()
            &&& 0 <= at < part.len()
            &&& part[at] == data[block_index::<RowMajor, RowMajor>(
                p,
                size.width as int,
                W as int,
                H as int,
            )]
        }),
{
    let w = W as int;
    let h = H as int;
    let cells = w * h;
    let n = size.width as int / w;
    let inner = b.width() / w;
    let range = Block::<W, H, RowMajor, RowMajor>::range_of(size, b).unwrap();
    // the tiles that the edges and the cell lie in
    let l = b.left / w;
    let t = b.top / h;
    let r = b.right / w;
    let bt = b.bottom / h;
    let tx = p.0 / w;
    let ty = p.1 / h;
    let c = (p.1 % h) * w + p.0 % w;
    lemma_shifted(p.0, b.left, w);
    lemma_shifted(p.1, b.top, h);
    lemma_shifted(b.right, b.left, w);
    lemma_shifted(b.bottom, b.top, h);
    lemma_shifted(b.right - 1, b.left, w);
    lemma_shifted(b.bottom - 1, b.top, h);
    lemma_floor(b.width(), w);
    lemma_floor(b.height(), h);
    lemma_floor(size.width as int, w);
    lemma_floor(p.0, w);
    lemma_floor(p.1, h);
    lemma_floor(b.left, w);
    lemma_floor(b.top, h);
    // the last cell of the rectangle is the last cell of its last tile
    assert(b.right == r * w && b.bottom == bt * h) by {
        lemma_floor(b.right, w);
        lemma_floor(b.bottom, h);
        assert((b.right - b.left) % w == b.right % w);
        assert((b.bottom - b.top) % h == b.bottom % h);
    }
    lemma_quotient(r - 1, w - 1, w);
    lemma_quotient(bt - 1, h - 1, h);
    assert((r - 1) * w + (w - 1) == b.right - 1) by (nonlinear_arith)
        requires
            b.right == r * w,
    ;
    assert((bt - 1) * h + (h - 1) == b.bottom - 1) by (nonlinear_arith)
        requires
            b.bottom == bt * h,
    ;
    let start = (t * n + l) * cells;
    let last = ((bt - 1) * n + (r - 1)) * cells + ((h - 1) * w + (w - 1));
    assert(range.0 == start) by {
        assert(b.left % w == 0 && b.top % h == 0);
        assert(0 * w + 0 == 0) by (nonlinear_arith);
    }
    assert(range.1 == last + 1);
    // the number of tiles in the rectangle
    let across = r - l;
    let down = bt - t;
    assert(across == inner);
    assert(across * w == b.width() && down * h == b.height()) by (nonlinear_arith)
        requires
            b.right == r * w,
            b.bottom == bt * h,
            b.left == l * w,
            b.top == t * h,
            across == r - l,
            down == bt - t,
    ;
    assert(1 <= across && 1 <= down) by (nonlinear_arith)
        requires
            across * w == b.width(),
            down * h == b.height(),
            0 < b.width(),
            0 < b.height(),
            0 < w,
            0 < h,
    ;
    assert(tx < r && ty < bt) by {
        if tx >= r {
            lemma_product_order(r, tx, w);
        }
        if ty >= bt {
            lemma_product_order(bt, ty, h);
        }
    }
    // one row of tiles, or rows of tiles that are as wide as the grid
    assert(down == 1 || (l == 0 && inner == n)) by {
        if b.height() == h {
            assert(down == 1) by (nonlinear_arith)
                requires
                    down * h == h,
                    0 < h,
            ;
        }
    }
    assert((down - 1) * n + across == across * down && (ty - t) * n == (ty - t) * inner)
        by (nonlinear_arith)
        requires
            down == 1 || (l == 0 && inner == n && across == n),
            t <= ty < t + down,
            across == inner,
    ;
    assert(last + 1 - start == (across * down) * cells) by (nonlinear_arith)
        requires
            start == (t * n + l) * cells,
            last == ((bt - 1) * n + (r - 1)) * cells + ((h - 1) * w + (w - 1)),
            cells == w * h,
            (down - 1) * n + across == across * down,
            down == bt - t,
            across == r - l,
    ;
    assert((across * down) * cells == b.area()) by (nonlinear_arith)
        requires
            across * w == b.width(),
            down * h == b.height(),
            cells == w * h,
            b.area() == b.width() * b.height(),
    ;
    // the offsets of the cell within the grid and within the rectangle
    let whole = (ty * n + tx) * cells + c;
    let at = ((ty - t) * inner + (tx - l)) * cells + c;
    assert(block_index::<RowMajor, RowMajor>(p, size.width as int, w, h) == whole);
    assert(block_index::<RowMajor, RowMajor>((p.0 - b.left, p.1 - b.top), b.width(), w, h)
        == at);
    assert(whole - start == at) by (nonlinear_arith)
        requires
            whole == (ty * n + tx) * cells + c,
            start == (t * n + l) * cells,
            at == ((ty - t) * inner + (tx - l)) * cells + c,
            (ty - t) * n == (ty - t) * inner,
    ;
    assert(0 <= c < cells) by (nonlinear_arith)
        requires
            c == (p.1 % h) * w + p.0 % w,
            0 <= p.1 % h < h,
            0 <= p.0 % w < w,
            cells == w * h,
    ;
    assert(0 <= at < (across * down) * cells) by (nonlinear_arith)
        requires
            at == ((ty - t) * inner + (tx - l)) * cells + c,
            0 <= c < cells,
            0 <= ty - t < down,
            0 <= tx - l < across,
            inner == across,
    ;
    assert(0 <= start) by (nonlinear_arith)
        requires
            start == (t * n + l) * cells,
            0 <= t,
            0 <= n,
            0 <= l,
            0 <= cells,
    ;
}

} // verus!

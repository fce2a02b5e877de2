//! A dense rectangular grid of tiles addressed by `MapPos`, and the distance
//! metric on positions.

use vstd::prelude::*;
use crate::types::{MapPos, Size2};

verus! {

/// Whether `size` describes a grid whose tiles fit in memory.
pub open spec fn valid_size(size: Size2) -> bool {
    &&& size.w >= 0
    &&& size.h >= 0
    &&& size.w * size.h <= usize::MAX
}

/// Whether `p` lies on a grid of dimensions `size`.
pub open spec fn in_bounds(size: Size2, p: MapPos) -> bool {
    0 <= p.x < size.w && 0 <= p.y < size.h
}

/// Row-major storage index of `p`.
pub open spec fn tile_index(size: Size2, p: MapPos) -> int {
    p.y * size.w + p.x
}

pub open spec fn abs(a: int) -> int {
    if a < 0 { -a } else { a }
}

/// Distance between two tiles: the number of king moves from one to the other.
pub open spec fn dist(a: MapPos, b: MapPos) -> int {
    let dx = abs(a.x - b.x);
    let dy = abs(a.y - b.y);
    if dx < dy { dy } else { dx }
}

proof fn lemma_index_in_range(size: Size2, p: MapPos)
    requires
        in_bounds(size, p),
    ensures
        0 <= p.y * size.w,
        0 <= tile_index(size, p) < size.w * size.h,
{
    assert(0 <= p.y * size.w && p.y * size.w + p.x < size.w * size.h) by (nonlinear_arith)
        requires
            0 <= p.x < size.w,
            0 <= p.y < size.h,
    ;
}

proof fn lemma_index_injective(size: Size2, p: MapPos, q: MapPos)
    requires
        in_bounds(size, p),
        in_bounds(size, q),
        tile_index(size, p) == tile_index(size, q),
    ensures
        p == q,
{
    if p.y < q.y {
        assert(p.y * size.w + p.x < q.y * size.w) by (nonlinear_arith)
            requires
                0 <= p.x < size.w,
                p.y < q.y,
        ;
    } else if q.y < p.y {
        assert(q.y * size.w + q.x < p.y * size.w) by (nonlinear_arith)
            requires
                0 <= q.x < size.w,
                q.y < p.y,
        ;
    }
}

/// Distance between two tiles, as `dist` gives it.
pub fn distance(a: &MapPos, b: &MapPos) -> (r: i64)
    ensures
        r == dist(*a, *b),
{
    let dx: i64 = (a.x as i64) - (b.x as i64);
    let dy: i64 = (a.y as i64) - (b.y as i64);
    let adx: i64 = if dx < 0 { -dx } else { dx };
    let ady: i64 = if dy < 0 { -dy } else { dy };
    if adx < ady { ady } else { adx }
}

/// A grid of `size.w * size.h` tiles stored row by row.
pub struct Grid<T> {
    size: Size2,
    tiles: Vec<T>,
}

impl<T> View for Grid<T> {
    type V = Map<MapPos, T>;

    /// The tile at each position on the grid.
    closed spec fn view(&self) -> Map<MapPos, T> {
        Map::new(
            |p: MapPos| in_bounds(self.size, p),
            |p: MapPos| self.tiles@[tile_index(self.size, p)],
        )
    }
}

/// The grid of dimensions `size` with `v` on every tile.
pub open spec fn filled<T>(size: Size2, v: T) -> Map<MapPos, T> {
    Map::new(|p: MapPos| in_bounds(size, p), |p: MapPos| v)
}

impl<T: Copy> Grid<T> {
    pub closed spec fn wf(&self) -> bool {
        &&& self.size.w >= 0
        &&& self.size.h >= 0
        &&& self.tiles@.len() == self.size.w * self.size.h
    }

    pub closed spec fn spec_size(&self) -> Size2 {
        self.size
    }

    /// A well-formed grid holds a tile for each position on it and no other.
    pub proof fn lemma_view_dom(&self)
        requires
            self.wf(),
        ensures
            self.spec_size().w >= 0,
            self.spec_size().h >= 0,
            forall|p: MapPos| #[trigger] self@.dom().contains(p) == in_bounds(self.spec_size(), p),
    {
    }

    /// A grid of dimensions `size` with `fill` on every tile.
    pub fn new(size: &Size2, fill: T) -> (r: Self)
        requires
            valid_size(*size),
        ensures
            r.wf(),
            r.spec_size() == *size,
            r@ == filled(*size, fill),
    {
        let n: usize = (size.w as usize) * (size.h as usize);
        let mut tiles: Vec<T> = Vec::new();
        let mut i: usize = 0;
        while i < n
            invariant
                i <= n,
                tiles@.len() == i,
                forall|k: int| 0 <= k < i ==> tiles@[k] == fill,
            decreases n - i,
        {
            tiles.push(fill);
            i = i + 1;
        }
        let r = Grid { size: *size, tiles };
        proof {
            assert forall|p: MapPos| in_bounds(r.size, p) implies
                0 <= tile_index(r.size, p) < r.tiles@.len() by {
                lemma_index_in_range(r.size, p);
            }
        }
        assert(r@ =~= filled(*size, fill));
        r
    }

    pub fn size(&self) -> (r: Size2)
        ensures
            r == self.spec_size(),
    {
        self.size
    }

    /// Whether `pos` lies on the grid.
    pub fn is_inboard(&self, pos: &MapPos) -> (r: bool)
        ensures
            r == in_bounds(self.spec_size(), *pos),
    {
        0 <= pos.x && pos.x < self.size.w && 0 <= pos.y && pos.y < self.size.h
    }

    fn index_of(&self, pos: &MapPos) -> (r: usize)
        requires
            self.wf(),
            in_bounds(self.spec_size(), *pos),
        ensures
            r == tile_index(self.size, *pos),
            r < self.tiles@.len(),
    {
        proof {
            lemma_index_in_range(self.size, *pos);
        }
        let n = self.tiles.len();
        assert(pos.y * self.size.w + pos.x < n);
        let row: usize = (pos.y as usize) * (self.size.w as usize);
        row + (pos.x as usize)
    }

    /// The tile at `pos`.
    pub fn tile(&self, pos: &MapPos) -> (r: T)
        requires
            self.wf(),
            in_bounds(self.spec_size(), *pos),
        ensures
            r == self@[*pos],
    {
        let i = self.index_of(pos);
        self.tiles[i]
    }

    /// Puts `v` on the tile at `pos`.
    pub fn set_tile(&mut self, pos: &MapPos, v: T)
        requires
            old(self).wf(),
            in_bounds(old(self).spec_size(), *pos),
        ensures
            final(self).wf(),
            final(self).spec_size() == old(self).spec_size(),
            final(self)@ == old(self)@.insert(*pos, v),
    {
        let i = self.index_of(pos);
        self.tiles.set(i, v);
        proof {
            assert forall|p: MapPos| in_bounds(self.size, p) && p != *pos implies
                tile_index(self.size, p) != i by {
                if tile_index(self.size, p) == i {
                    lemma_index_injective(self.size, p, *pos);
                }
            }
            assert forall|p: MapPos| in_bounds(self.size, p) implies
                0 <= tile_index(self.size, p) < self.tiles@.len() by {
                lemma_index_in_range(self.size, p);
            }
        }
        assert(self@ =~= old(self)@.insert(*pos, v));
    }

    /// Puts `v` on every tile.
    pub fn fill(&mut self, v: T)
        requires
            old(self).wf(),
        ensures
            final(self).wf(),
            final(self).spec_size() == old(self).spec_size(),
            final(self)@ == filled(old(self).spec_size(), v),
    {
        let n = self.tiles.len();
        let mut i: usize = 0;
        while i < n
            invariant
                i <= n,
                n == self.tiles@.len(),
                self.size == old(self).size,
                self.tiles@.len() == self.size.w * self.size.h,
                self.size.w >= 0,
                self.size.h >= 0,
                forall|k: int| 0 <= k < i ==> self.tiles@[k] == v,
            decreases n - i,
        {
            self.tiles.set(i, v);
            i = i + 1;
        }
        proof {
            assert forall|p: MapPos| in_bounds(self.size, p) implies
                0 <= tile_index(self.size, p) < self.tiles@.len() by {
                lemma_index_in_range(self.size, p);
            }
        }
        assert(self@ =~= filled(self.size, v));
    }
}

} // verus!

//! The visibility sweep: which tiles a unit can see from a position.

use vstd::prelude::*;
use crate::grid::{Grid, dist, in_bounds};
use crate::types::{FowError, MapPos, Terrain};

verus! {

/// Whether `p` is on a grid of dimensions `size` and within `range` of `origin`.
pub open spec fn in_sight(size: crate::types::Size2, origin: MapPos, range: int, p: MapPos) -> bool {
    in_bounds(size, p) && dist(origin, p) <= range
}

/// Whether `p` comes before row `y`, column `x` in row-major order.
pub open spec fn before(p: MapPos, y: int, x: int) -> bool {
    p.y < y || (p.y == y && p.x < x)
}

/// Positions in strictly increasing row-major order.
pub open spec fn ordered(s: Seq<MapPos>) -> bool {
    forall|i: int, j: int| 0 <= i < j < s.len() ==> before(s[i], s[j].y as int, s[j].x as int)
}

/// Every tile of `terrain` within `range` of `origin`, each once, row by row.
/// An `origin` off the grid is refused with `InvalidPosition`.
pub fn fov(terrain: &Grid<Terrain>, origin: &MapPos, range: i32) -> (r: Result<Vec<MapPos>, FowError>)
    requires
        terrain.wf(),
    ensures
        r is Err <==> !in_bounds(terrain.spec_size(), *origin),
        r is Err ==> r == Err::<Vec<MapPos>, FowError>(FowError::InvalidPosition),
        r matches Ok(v) ==> {
            &&& v@.no_duplicates()
            &&& forall|p: MapPos| #[trigger] v@.contains(p)
                <==> in_sight(terrain.spec_size(), *origin, range as int, p)
        },
{
    if !terrain.is_inboard(origin) {
        return Err(FowError::InvalidPosition);
    }
    let size = terrain.size();
    proof {
        terrain.lemma_view_dom();
    }
    let ghost sz = size;
    let rg: i64 = range as i64;
    let oy: i64 = origin.y as i64;
    let ox: i64 = origin.x as i64;
    let y_lo: i64 = if oy - rg > 0 { oy - rg } else { 0 };
    let y_hi: i64 = if oy + rg + 1 < size.h as i64 { oy + rg + 1 } else { size.h as i64 };
    let x_lo: i64 = if ox - rg > 0 { ox - rg } else { 0 };
    let x_hi: i64 = if ox + rg + 1 < size.w as i64 { ox + rg + 1 } else { size.w as i64 };
    let mut out: Vec<MapPos> = Vec::new();
    let mut y: i64 = y_lo;
    while y < y_hi
        invariant
            0 <= y_lo <= y,
            y_hi <= sz.h,
            x_lo >= 0,
            x_hi <= sz.w,
            y_lo == (if origin.y - range > 0 { origin.y - range } else { 0 }),
            y_hi == (if origin.y + range + 1 < sz.h { origin.y + range + 1 } else { sz.h as int }),
            x_lo == (if origin.x - range > 0 { origin.x - range } else { 0 }),
            x_hi == (if origin.x + range + 1 < sz.w { origin.x + range + 1 } else { sz.w as int }),
            ordered(out@),
            forall|k: int| 0 <= k < out@.len() ==> before(#[trigger] out@[k], y as int, 0),
            forall|p: MapPos| #[trigger] out@.contains(p)
                <==> (in_sight(sz, *origin, range as int, p) && p.y < y),
        decreases y_hi - y,
    {
        let mut x: i64 = x_lo;
        while x < x_hi
            invariant
                0 <= y_lo <= y < y_hi,
                y_hi <= sz.h,
                0 <= x_lo <= x,
                x_hi <= sz.w,
                y_lo == (if origin.y - range > 0 { origin.y - range } else { 0 }),
                y_hi == (if origin.y + range + 1 < sz.h { origin.y + range + 1 } else { sz.h as int }),
                x_lo == (if origin.x - range > 0 { origin.x - range } else { 0 }),
                x_hi == (if origin.x + range + 1 < sz.w { origin.x + range + 1 } else { sz.w as int }),
                ordered(out@),
                forall|k: int| 0 <= k < out@.len() ==> before(#[trigger] out@[k], y as int, x as int),
                forall|p: MapPos| #[trigger] out@.contains(p)
                    <==> (in_sight(sz, *origin, range as int, p) && before(p, y as int, x as int)),
            decreases x_hi - x,
        {
            let p = MapPos { x: x as i32, y: y as i32 };
            let ghost prev = out@;
            out.push(p);
            proof {
                assert forall|q: MapPos| #[trigger] out@.contains(q)
                    <==> (in_sight(sz, *origin, range as int, q) && before(q, y as int, x + 1)) by {
                    if q == p {
                        assert(out@[prev.len() as int] == p);
                    } else if out@.contains(q) {
                        let k = choose|k: int| 0 <= k < out@.len() && out@[k] == q;
                        assert(prev[k] == q);
                        assert(prev.contains(q));
                    } else if in_sight(sz, *origin, range as int, q) && before(q, y as int, x + 1) {
                        assert(prev.contains(q));
                        let k = choose|k: int| 0 <= k < prev.len() && prev[k] == q;
                        assert(out@[k] == q);
                    }
                }
            }
            x = x + 1;
        }
        proof {
            assert forall|q: MapPos| #[trigger] out@.contains(q)
                <==> (in_sight(sz, *origin, range as int, q) && q.y < y + 1) by {
                if in_sight(sz, *origin, range as int, q) && q.y == y {
                    assert(q.x < x);
                }
            }
        }
        y = y + 1;
    }
    proof {
        assert forall|q: MapPos| #[trigger] out@.contains(q)
            <==> in_sight(sz, *origin, range as int, q) by {
            if in_sight(sz, *origin, range as int, q) {
                assert(q.y < y);
            }
        }
        assert forall|i: int, j: int| 0 <= i < out@.len() && 0 <= j < out@.len() && i != j
            implies out@[i] != out@[j] by {
            if i < j {
                assert(before(out@[i], out@[j].y as int, out@[j].x as int));
            } else {
                assert(before(out@[j], out@[i].y as int, out@[i].x as int));
            }
        }
    }
    Ok(out)
}

} // verus!

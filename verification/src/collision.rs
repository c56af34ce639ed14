//! Collision resolution: push an actor standing on a non-walkable tile to
//! the nearest walkable Moore neighbor.

use vstd::prelude::*;

use crate::grid::DungeonGrid;
use crate::grid::spec_tile_at;
use crate::grid::spec_walkable_at;
use crate::tile::GridCoordinate;
use crate::tile::Tile;

verus! {

/// The `(dx, dy)` offset of the `k`-th Moore neighbor in scan order:
/// row-major over `dy` then `dx`, each in `{-1, 0, 1}`, skipping `(0, 0)`.
pub open spec fn scan_offset(k: int) -> (int, int) {
    if k == 0 {
        (-1, -1)
    } else if k == 1 {
        (0, -1)
    } else if k == 2 {
        (1, -1)
    } else if k == 3 {
        (-1, 0)
    } else if k == 4 {
        (1, 0)
    } else if k == 5 {
        (-1, 1)
    } else if k == 6 {
        (0, 1)
    } else {
        (1, 1)
    }
}

pub open spec fn neighbor_x(from: GridCoordinate, k: int) -> int {
    from.x + scan_offset(k).0
}

pub open spec fn neighbor_y(from: GridCoordinate, k: int) -> int {
    from.y + scan_offset(k).1
}

/// Squared world-space distance between the world position of grid cell
/// `(x, y)` (the cell scaled by `cell`) and the continuous actor position
/// `(ax, ay)`.
pub open spec fn spec_dist2(x: int, y: int, ax: int, ay: int, cell: int) -> int {
    (x * cell - ax) * (x * cell - ax) + (y * cell - ay) * (y * cell - ay)
}

/// The `k`-th neighbor of `from` holds a walkable tile.
pub open spec fn walkable_neighbor(tiles: Seq<Tile>, from: GridCoordinate, k: int) -> bool {
    spec_walkable_at(tiles, neighbor_x(from, k), neighbor_y(from, k))
}

/// Squared world-space distance of the `k`-th neighbor of `from` to the
/// actor position.
pub open spec fn neighbor_dist2(from: GridCoordinate, k: int, ax: int, ay: int, cell: int) -> int {
    spec_dist2(neighbor_x(from, k), neighbor_y(from, k), ax, ay, cell)
}

/// `r` is the correct nearest-walkable answer: `None` exactly when no Moore
/// neighbor of `from` is walkable, otherwise the walkable neighbor with
/// minimal squared world-space distance to the actor, ties broken by scan
/// order (the earlier neighbor wins).
pub open spec fn is_nearest_result(
    tiles: Seq<Tile>,
    from: GridCoordinate,
    ax: int,
    ay: int,
    cell: int,
    r: Option<GridCoordinate>,
) -> bool {
    match r {
        None => forall|k: int| 0 <= k < 8 ==> !walkable_neighbor(tiles, from, k),
        Some(c) => exists|k: int|
            {
                &&& 0 <= k < 8
                &&& #[trigger] walkable_neighbor(tiles, from, k)
                &&& c.x == neighbor_x(from, k)
                &&& c.y == neighbor_y(from, k)
                &&& forall|j: int|
                    0 <= j < 8 && #[trigger] walkable_neighbor(tiles, from, j) ==> {
                        ||| neighbor_dist2(from, k, ax, ay, cell)
                            < neighbor_dist2(from, j, ax, ay, cell)
                        ||| (neighbor_dist2(from, k, ax, ay, cell)
                            == neighbor_dist2(from, j, ax, ay, cell) && k <= j)
                    }
            },
    }
}

/// `|a| <= bound_a` and `|b| <= bound_b` bound the product.
proof fn lemma_product_bound(a: int, b: int, bound_a: int, bound_b: int)
    by (nonlinear_arith)
    requires
        -bound_a <= a <= bound_a,
        -bound_b <= b <= bound_b,
        0 <= bound_a,
        0 <= bound_b,
    ensures
        -(bound_a * bound_b) <= a * b <= bound_a * bound_b,
{
}

/// The scan-order offset table.
fn scan_offset_at(k: usize) -> (r: (i32, i32))
    requires
        k < 8,
    ensures
        r.0 as int == scan_offset(k as int).0,
        r.1 as int == scan_offset(k as int).1,
{
    if k == 0 {
        (-1, -1)
    } else if k == 1 {
        (0, -1)
    } else if k == 2 {
        (1, -1)
    } else if k == 3 {
        (-1, 0)
    } else if k == 4 {
        (1, 0)
    } else if k == 5 {
        (-1, 1)
    } else if k == 6 {
        (0, 1)
    } else {
        (1, 1)
    }
}

impl DungeonGrid {
    /// Among the eight Moore neighbors of `from`, the walkable one whose
    /// world position lies nearest (in squared distance) to the continuous
    /// actor position `(actor_x, actor_y)`; ties go to the neighbor met
    /// first in scan order. `None` when no neighbor is walkable: the search
    /// never looks further than one tile away.
    pub fn nearest_walkable(
        &self,
        from: GridCoordinate,
        actor_x: i32,
        actor_y: i32,
        cell_size: i32,
    ) -> (r: Option<GridCoordinate>)
        requires
            i32::MIN < from.x < i32::MAX,
            i32::MIN < from.y < i32::MAX,
            cell_size >= 1,
        ensures
            is_nearest_result(
                self.tiles@, from, actor_x as int, actor_y as int, cell_size as int, r),
    {
        let ghost tiles = self.tiles@;
        let ghost ax = actor_x as int;
        let ghost ay = actor_y as int;
        let ghost cell = cell_size as int;
        let mut best: Option<GridCoordinate> = None;
        let mut best_d2: i128 = 0;
        let ghost mut best_k: int = 0;
        let mut k: usize = 0;
        while k < 8
            invariant
                self.tiles@ == tiles,
                ax == actor_x as int,
                ay == actor_y as int,
                cell == cell_size as int,
                i32::MIN < from.x < i32::MAX,
                i32::MIN < from.y < i32::MAX,
                cell_size >= 1,
                k <= 8,
                best is None ==> forall|j: int|
                    0 <= j < k ==> !walkable_neighbor(tiles, from, j),
                best matches Some(c) ==> {
                    &&& 0 <= best_k < k
                    &&& walkable_neighbor(tiles, from, best_k)
                    &&& c.x == neighbor_x(from, best_k)
                    &&& c.y == neighbor_y(from, best_k)
                    &&& best_d2 as int == neighbor_dist2(from, best_k, ax, ay, cell)
                    &&& forall|j: int|
                        0 <= j < k && #[trigger] walkable_neighbor(tiles, from, j) ==> {
                            ||| neighbor_dist2(from, best_k, ax, ay, cell)
                                < neighbor_dist2(from, j, ax, ay, cell)
                            ||| (neighbor_dist2(from, best_k, ax, ay, cell)
                                == neighbor_dist2(from, j, ax, ay, cell) && best_k <= j)
                        }
                },
            decreases 8 - k,
        {
            let (dx, dy) = scan_offset_at(k);
            let cx: i32 = from.x + dx;
            let cy: i32 = from.y + dy;
            let candidate = GridCoordinate { x: cx, y: cy };
            if self.is_walkable(candidate) {
                proof {
                    lemma_product_bound(
                        cx as int, cell, 0x8000_0000, 0x7fff_ffff);
                    lemma_product_bound(
                        cy as int, cell, 0x8000_0000, 0x7fff_ffff);
                }
                let wx: i64 = cx as i64 * cell_size as i64;
                let wy: i64 = cy as i64 * cell_size as i64;
                let dxw: i64 = wx - actor_x as i64;
                let dyw: i64 = wy - actor_y as i64;
                proof {
                    lemma_product_bound(
                        dxw as int, dxw as int,
                        0x4000_0000_8000_0000, 0x4000_0000_8000_0000);
                    lemma_product_bound(
                        dyw as int, dyw as int,
                        0x4000_0000_8000_0000, 0x4000_0000_8000_0000);
                }
                let d2: i128 = dxw as i128 * dxw as i128 + dyw as i128 * dyw as i128;
                assert(d2 as int == neighbor_dist2(from, k as int, ax, ay, cell));
                if best.is_none() || d2 < best_d2 {
                    best = Some(candidate);
                    best_d2 = d2;
                    proof {
                        best_k = k as int;
                    }
                }
            }
            k += 1;
        }
        best
    }

    /// The collision step's decision: an actor whose grid cell holds a
    /// non-walkable tile is pushed to the nearest walkable neighbor of that
    /// cell; an actor on a walkable tile, or on no tile at all, is left
    /// where it is (`None`).
    pub fn resolve_collision(
        &self,
        pos: GridCoordinate,
        actor_x: i32,
        actor_y: i32,
        cell_size: i32,
    ) -> (r: Option<GridCoordinate>)
        requires
            i32::MIN < pos.x < i32::MAX,
            i32::MIN < pos.y < i32::MAX,
            cell_size >= 1,
        ensures
            (match spec_tile_at(self.tiles@, pos.x as int, pos.y as int) {
                Some(t) => if !t.tile_type.spec_walkable() {
                    is_nearest_result(
                        self.tiles@, pos, actor_x as int, actor_y as int,
                        cell_size as int, r)
                } else {
                    r is None
                },
                None => r is None,
            }),
    {
        match self.tile_at(pos) {
            Some(t) => {
                if !t.is_walkable() {
                    self.nearest_walkable(pos, actor_x, actor_y, cell_size)
                } else {
                    None
                }
            },
            None => None,
        }
    }
}

} // verus!

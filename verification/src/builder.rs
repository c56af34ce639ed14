//! DungeonBuilder: turn placed rooms into a tile grid and carve corridors
//! between successive room centers.

use vstd::prelude::*;
use vstd::math::max;
use vstd::math::min;

use crate::grid::DungeonGrid;
use crate::grid::insert_first_wins;
use crate::grid::spec_insert;
use crate::room::Room;
use crate::tile::GridCoordinate;
use crate::tile::Tile;
use crate::tile::TileType;

verus! {

/// A corridor tile: `Floor` at `(x, y)`.
pub open spec fn floor_tile(x: int, y: int) -> Tile {
    Tile {
        tile_type: TileType::Floor,
        position: GridCoordinate { x: x as i32, y: y as i32 },
    }
}

/// The inclusive horizontal run of floor tiles at row `y`, columns
/// `x_lo` through `x_hi`.
pub open spec fn horizontal_run(x_lo: int, x_hi: int, y: int) -> Seq<Tile> {
    Seq::new(
        if x_hi < x_lo { 0 } else { (x_hi - x_lo + 1) as nat },
        |i: int| floor_tile(x_lo + i, y),
    )
}

/// The inclusive vertical run of floor tiles at column `x`, rows
/// `y_lo` through `y_hi`.
pub open spec fn vertical_run(x: int, y_lo: int, y_hi: int) -> Seq<Tile> {
    Seq::new(
        if y_hi < y_lo { 0 } else { (y_hi - y_lo + 1) as nat },
        |i: int| floor_tile(x, y_lo + i),
    )
}

/// The L-shaped corridor between `(sx, sy)` and `(ex, ey)`: the corner
/// point shares the end's column and the start's row; a horizontal run at
/// row `sy` between the start's and the end's columns, then a vertical run
/// at the end's column between the start's and the end's rows, inclusive
/// bounds on both runs.
pub open spec fn spec_corridor(sx: int, sy: int, ex: int, ey: int) -> Seq<Tile> {
    let corner_x = ex;
    let corner_y = sy;
    horizontal_run(min(sx, corner_x), max(sx, corner_x), sy)
        + vertical_run(corner_x, min(corner_y, ey), max(corner_y, ey))
}

/// Insert every tile of `ts` in order, first writer wins.
pub open spec fn spec_insert_all(tiles: Seq<Tile>, ts: Seq<Tile>) -> Seq<Tile>
    decreases ts.len(),
{
    if ts.len() == 0 {
        tiles
    } else {
        spec_insert_all(spec_insert(tiles, ts[0]), ts.drop_first())
    }
}

/// Inserting a concatenation inserts its halves one after the other.
pub proof fn lemma_insert_all_concat(tiles: Seq<Tile>, a: Seq<Tile>, b: Seq<Tile>)
    ensures
        spec_insert_all(tiles, a + b) == spec_insert_all(spec_insert_all(tiles, a), b),
    decreases a.len(),
{
    if a.len() == 0 {
        assert(a + b =~= b);
    } else {
        assert((a + b)[0] == a[0]);
        assert((a + b).drop_first() =~= a.drop_first() + b);
        lemma_insert_all_concat(spec_insert(tiles, a[0]), a.drop_first(), b);
    }
}

/// Step one of building: tile every room, in list order.
pub open spec fn spec_rooms_tiles(tiles: Seq<Tile>, rooms: Seq<Room>) -> Seq<Tile>
    decreases rooms.len(),
{
    if rooms.len() == 0 {
        tiles
    } else {
        spec_rooms_tiles(spec_insert_all(tiles, rooms[0].spec_tiles()), rooms.drop_first())
    }
}

/// Step two of building: carve a corridor between each consecutive pair of
/// room centers, for pairs `i` onward.
pub open spec fn spec_corridors_from(tiles: Seq<Tile>, rooms: Seq<Room>, i: int) -> Seq<Tile>
    decreases rooms.len() - i,
{
    if i < 0 || i + 1 >= rooms.len() {
        tiles
    } else {
        spec_corridors_from(
            spec_insert_all(
                tiles,
                spec_corridor(
                    rooms[i].center_x(),
                    rooms[i].center_y(),
                    rooms[i + 1].center_x(),
                    rooms[i + 1].center_y(),
                ),
            ),
            rooms,
            i + 1,
        )
    }
}

/// Everything `build` writes into the grid for a given room list.
pub open spec fn spec_build_tiles(rooms: Seq<Room>) -> Seq<Tile> {
    spec_corridors_from(spec_rooms_tiles(Seq::empty(), rooms), rooms, 0)
}

/// The tiles of the inclusive horizontal run, in order.
fn run_tiles_horizontal(x_lo: i64, x_hi: i64, y: i32) -> (r: Vec<Tile>)
    requires
        i32::MIN <= x_lo,
        x_hi <= i32::MAX,
    ensures
        r@ == horizontal_run(x_lo as int, x_hi as int, y as int),
{
    let mut r: Vec<Tile> = Vec::new();
    let mut x: i64 = x_lo;
    while x <= x_hi
        invariant
            i32::MIN <= x_lo,
            x_hi <= i32::MAX,
            x_lo <= x,
            x_hi < x_lo ==> x == x_lo,
            x_hi >= x_lo ==> x <= x_hi + 1,
            r@.len() == x - x_lo,
            forall|i: int| 0 <= i < r@.len() ==>
                r@[i] == floor_tile(x_lo + i, y as int),
        decreases x_hi + 1 - x,
    {
        r.push(Tile {
            tile_type: TileType::Floor,
            position: GridCoordinate { x: x as i32, y },
        });
        x += 1;
    }
    proof {
        assert(r@ =~= horizontal_run(x_lo as int, x_hi as int, y as int));
    }
    r
}

/// The tiles of the inclusive vertical run, in order.
fn run_tiles_vertical(x: i32, y_lo: i64, y_hi: i64) -> (r: Vec<Tile>)
    requires
        i32::MIN <= y_lo,
        y_hi <= i32::MAX,
    ensures
        r@ == vertical_run(x as int, y_lo as int, y_hi as int),
{
    let mut r: Vec<Tile> = Vec::new();
    let mut y: i64 = y_lo;
    while y <= y_hi
        invariant
            i32::MIN <= y_lo,
            y_hi <= i32::MAX,
            y_lo <= y,
            y_hi < y_lo ==> y == y_lo,
            y_hi >= y_lo ==> y <= y_hi + 1,
            r@.len() == y - y_lo,
            forall|i: int| 0 <= i < r@.len() ==>
                r@[i] == floor_tile(x as int, y_lo + i),
        decreases y_hi + 1 - y,
    {
        r.push(Tile {
            tile_type: TileType::Floor,
            position: GridCoordinate { x, y: y as i32 },
        });
        y += 1;
    }
    proof {
        assert(r@ =~= vertical_run(x as int, y_lo as int, y_hi as int));
    }
    r
}

/// Insert every tile of `ts` in order, first writer wins.
pub(crate) fn insert_all(tiles: &mut Vec<Tile>, ts: &Vec<Tile>)
    ensures
        final(tiles)@ == spec_insert_all(old(tiles)@, ts@),
{
    let ghost orig = old(tiles)@;
    proof {
        assert(ts@.subrange(0, ts@.len() as int) =~= ts@);
    }
    let mut k: usize = 0;
    while k < ts.len()
        invariant
            k <= ts@.len(),
            spec_insert_all(tiles@, ts@.subrange(k as int, ts@.len() as int))
                == spec_insert_all(orig, ts@),
        decreases ts@.len() - k,
    {
        let ghost rest = ts@.subrange(k as int, ts@.len() as int);
        insert_first_wins(tiles, ts[k]);
        proof {
            assert(rest[0] == ts@[k as int]);
            assert(rest.drop_first() =~= ts@.subrange(k + 1, ts@.len() as int));
        }
        k += 1;
    }
    proof {
        assert(ts@.subrange(ts@.len() as int, ts@.len() as int) =~= Seq::<Tile>::empty());
    }
}

/// Carve the L-shaped corridor between `start` and `end`; corridor tiles
/// are written only at coordinates with no existing tile.
fn carve_corridor(tiles: &mut Vec<Tile>, start: GridCoordinate, end: GridCoordinate)
    ensures
        final(tiles)@ == spec_insert_all(
            old(tiles)@,
            spec_corridor(start.x as int, start.y as int, end.x as int, end.y as int),
        ),
{
    let corner_x: i32 = end.x;
    let corner_y: i32 = start.y;

    let x_lo = if start.x <= corner_x { start.x } else { corner_x };
    let x_hi = if start.x <= corner_x { corner_x } else { start.x };
    let hor = run_tiles_horizontal(x_lo as i64, x_hi as i64, start.y);

    let y_lo = if corner_y <= end.y { corner_y } else { end.y };
    let y_hi = if corner_y <= end.y { end.y } else { corner_y };
    let ver = run_tiles_vertical(corner_x, y_lo as i64, y_hi as i64);

    insert_all(tiles, &hor);
    insert_all(tiles, &ver);
    proof {
        lemma_insert_all_concat(old(tiles)@, hor@, ver@);
        assert(hor@ + ver@ == spec_corridor(
            start.x as int, start.y as int, end.x as int, end.y as int));
    }
}

/// Convert a room list into a tile grid: for every room, in list order,
/// write its wall-and-floor tiles; then, between each consecutive pair of
/// rooms, carve a corridor between their centers. Every write keeps the
/// first tile at its coordinate; nothing is overwritten and nothing fails,
/// even for overlapping rooms.
pub fn build(rooms: Vec<Room>) -> (grid: DungeonGrid)
    requires
        forall|i: int| 0 <= i < rooms@.len() ==> (#[trigger] rooms@[i]).wf(),
    ensures
        grid.rooms@ == rooms@,
        grid.tiles@ == spec_build_tiles(rooms@),
{
    let ghost all = rooms@;
    let mut tiles: Vec<Tile> = Vec::new();
    proof {
        assert(all.subrange(0, all.len() as int) =~= all);
    }
    let mut k: usize = 0;
    while k < rooms.len()
        invariant
            k <= all.len(),
            rooms@ == all,
            forall|i: int| 0 <= i < all.len() ==> (#[trigger] all[i]).wf(),
            spec_rooms_tiles(tiles@, all.subrange(k as int, all.len() as int))
                == spec_rooms_tiles(Seq::empty(), all),
        decreases all.len() - k,
    {
        let ghost rest = all.subrange(k as int, all.len() as int);
        let room_tiles = rooms[k].generate_tiles();
        insert_all(&mut tiles, &room_tiles);
        proof {
            assert(rest[0] == all[k as int]);
            assert(rest.drop_first() =~= all.subrange(k + 1, all.len() as int));
        }
        k += 1;
    }
    proof {
        assert(all.subrange(all.len() as int, all.len() as int) =~= Seq::<Room>::empty());
    }
    if rooms.len() > 1 {
        let n = rooms.len();
        let mut i: usize = 0;
        while i + 1 < n
            invariant
                n == all.len(),
                all.len() > 1,
                i <= n - 1,
                rooms@ == all,
                forall|j: int| 0 <= j < all.len() ==> (#[trigger] all[j]).wf(),
                spec_corridors_from(tiles@, all, i as int) == spec_build_tiles(all),
            decreases all.len() - i,
        {
            let c1 = rooms[i].center();
            let c2 = rooms[i + 1].center();
            carve_corridor(&mut tiles, c1, c2);
            i += 1;
        }
    }
    DungeonGrid { tiles, rooms }
}

} // verus!

//! Library-wide guarantees relating placement, building and queries.

use vstd::prelude::*;
use vstd::arithmetic::div_mod::lemma_fundamental_div_mod;
use vstd::arithmetic::div_mod::lemma_fundamental_div_mod_converse;
use vstd::arithmetic::div_mod::lemma_mod_bound;

use crate::builder::spec_build_tiles;
use crate::builder::spec_corridor;
use crate::builder::spec_corridors_from;
use crate::builder::spec_insert_all;
use crate::builder::spec_rooms_tiles;
use crate::grid::lemma_tile_at_insert;
use crate::grid::spec_insert;
use crate::grid::spec_tile_at;
use crate::room::Room;
use crate::tile::GridCoordinate;
use crate::tile::Tile;
use crate::tile::TileType;

verus! {

/// The tile a room writes at the covered coordinate `(x, y)`: `Wall` on the
/// room's perimeter, `Floor` inside.
pub open spec fn room_tile_at(room: Room, x: int, y: int) -> Tile
    recommends
        room.wf(),
        room.covers(x, y),
{
    Tile {
        tile_type: if x == room.position.x || y == room.position.y
            || x == room.end_x() - 1 || y == room.end_y() - 1 {
            TileType::Wall
        } else {
            TileType::Floor
        },
        position: GridCoordinate { x: x as i32, y: y as i32 },
    }
}

/// The tile of the first room in list order that covers `(x, y)`, if any.
pub open spec fn spec_room_lookup(rooms: Seq<Room>, x: int, y: int) -> Option<Tile>
    decreases rooms.len(),
{
    if rooms.len() == 0 {
        None
    } else if rooms[0].covers(x, y) {
        Some(room_tile_at(rooms[0], x, y))
    } else {
        spec_room_lookup(rooms.drop_first(), x, y)
    }
}

/// Determinism: what `build` writes is a function of the room list alone,
/// so two room lists that agree element by element build identical tile
/// grids.
pub proof fn lemma_build_deterministic(a: Seq<Room>, b: Seq<Room>)
    requires
        a.len() == b.len(),
        forall|i: int| 0 <= i < a.len() ==> a[i] == b[i],
    ensures
        spec_build_tiles(a) == spec_build_tiles(b),
{
    assert(a =~= b);
}

/// A tile's identity is its position: a lookup at `(x, y)` never returns a
/// tile recorded for another coordinate.
pub proof fn lemma_tile_at_own_position(ts: Seq<Tile>, x: int, y: int)
    ensures
        spec_tile_at(ts, x, y) matches Some(t)
            ==> t.position.x == x && t.position.y == y,
    decreases ts.len(),
{
    if ts.len() > 0 {
        lemma_tile_at_own_position(ts.drop_first(), x, y);
    }
}

/// Lookup in a sequence of floor tiles only ever yields a floor tile.
proof fn lemma_tile_at_all_floor(ts: Seq<Tile>, x: int, y: int)
    requires
        forall|j: int| 0 <= j < ts.len()
            ==> (#[trigger] ts[j]).tile_type == TileType::Floor,
    ensures
        spec_tile_at(ts, x, y) matches Some(t) ==> t.tile_type == TileType::Floor,
    decreases ts.len(),
{
    if ts.len() > 0 {
        assert(forall|j: int| 0 <= j < ts.len() - 1
            ==> #[trigger] ts.drop_first()[j] == ts[j + 1]);
        lemma_tile_at_all_floor(ts.drop_first(), x, y);
    }
}

/// No room of the list covers `(x, y)`, so none contributes a tile there.
proof fn lemma_room_lookup_none(rooms: Seq<Room>, x: int, y: int)
    requires
        forall|k: int| 0 <= k < rooms.len() ==> !(#[trigger] rooms[k]).covers(x, y),
    ensures
        spec_room_lookup(rooms, x, y) is None,
    decreases rooms.len(),
{
    if rooms.len() > 0 {
        assert(forall|k: int| 0 <= k < rooms.len() - 1
            ==> #[trigger] rooms.drop_first()[k] == rooms[k + 1]);
        lemma_room_lookup_none(rooms.drop_first(), x, y);
    }
}

/// Corridor carving can only leave a coordinate empty, keep what was
/// there, or write a `Floor` tile at that very coordinate.
proof fn lemma_corridors_floor(tiles: Seq<Tile>, rooms: Seq<Room>, i: int, x: int, y: int)
    requires
        (match spec_tile_at(tiles, x, y) {
            None => true,
            Some(t) => t.tile_type == TileType::Floor
                && t.position.x == x && t.position.y == y,
        }),
    ensures
        (match spec_tile_at(spec_corridors_from(tiles, rooms, i), x, y) {
            None => true,
            Some(t) => t.tile_type == TileType::Floor
                && t.position.x == x && t.position.y == y,
        }),
    decreases rooms.len() - i,
{
    if !(i < 0 || i + 1 >= rooms.len()) {
        let corridor = spec_corridor(
            rooms[i].center_x(),
            rooms[i].center_y(),
            rooms[i + 1].center_x(),
            rooms[i + 1].center_y(),
        );
        assert forall|j: int| 0 <= j < corridor.len()
            implies (#[trigger] corridor[j]).tile_type == TileType::Floor by {
        }
        lemma_tile_at_insert_all(tiles, corridor, x, y);
        lemma_tile_at_all_floor(corridor, x, y);
        lemma_tile_at_own_position(corridor, x, y);
        lemma_corridors_floor(spec_insert_all(tiles, corridor), rooms, i + 1, x, y);
    }
}

/// At a coordinate no room covers, the built grid holds either nothing or
/// a corridor tile: a `Floor` tile recorded at that very coordinate. Walls
/// come from rooms alone.
pub proof fn lemma_uncovered_coordinate_floor_or_empty(rooms: Seq<Room>, x: int, y: int)
    requires
        forall|k: int| 0 <= k < rooms.len() ==> (#[trigger] rooms[k]).wf(),
        forall|k: int| 0 <= k < rooms.len() ==> !(#[trigger] rooms[k]).covers(x, y),
    ensures
        (match spec_tile_at(spec_build_tiles(rooms), x, y) {
            None => true,
            Some(t) => t.tile_type == TileType::Floor
                && t.position.x == x && t.position.y == y,
        }),
{
    lemma_room_lookup_none(rooms, x, y);
    lemma_rooms_phase(Seq::empty(), rooms, x, y);
    lemma_corridors_floor(spec_rooms_tiles(Seq::empty(), rooms), rooms, 0, x, y);
}

/// In a sequence whose first tile at `(x, y)` stands at index `i`, lookup
/// returns exactly that tile.
proof fn lemma_tile_at_first_match(ts: Seq<Tile>, x: int, y: int, i: int)
    requires
        0 <= i < ts.len(),
        ts[i].position.x == x && ts[i].position.y == y,
        forall|j: int| 0 <= j < i
            ==> !((#[trigger] ts[j]).position.x == x && ts[j].position.y == y),
    ensures
        spec_tile_at(ts, x, y) == Some(ts[i]),
    decreases i,
{
    if i > 0 {
        assert(!(ts[0].position.x == x && ts[0].position.y == y));
        assert(forall|j: int| 0 <= j < i - 1
            ==> #[trigger] ts.drop_first()[j] == ts[j + 1]);
        lemma_tile_at_first_match(ts.drop_first(), x, y, i - 1);
    }
}

/// In a sequence with no tile at `(x, y)`, lookup returns nothing.
proof fn lemma_tile_at_no_match(ts: Seq<Tile>, x: int, y: int)
    requires
        forall|j: int| 0 <= j < ts.len()
            ==> !((#[trigger] ts[j]).position.x == x && ts[j].position.y == y),
    ensures
        spec_tile_at(ts, x, y) is None,
    decreases ts.len(),
{
    if ts.len() > 0 {
        assert(forall|j: int| 0 <= j < ts.len() - 1
            ==> #[trigger] ts.drop_first()[j] == ts[j + 1]);
        lemma_tile_at_no_match(ts.drop_first(), x, y);
    }
}

/// Bulk first-wins insertion resolves a lookup to the existing tile if the
/// coordinate was occupied, else to the first inserted tile there.
pub proof fn lemma_tile_at_insert_all(tiles: Seq<Tile>, ts: Seq<Tile>, x: int, y: int)
    ensures
        spec_tile_at(spec_insert_all(tiles, ts), x, y) == (match spec_tile_at(
            tiles, x, y) {
            Some(u) => Some(u),
            None => spec_tile_at(ts, x, y),
        }),
    decreases ts.len(),
{
    if ts.len() > 0 {
        lemma_tile_at_insert(tiles, ts[0], x, y);
        lemma_tile_at_insert_all(spec_insert(tiles, ts[0]), ts.drop_first(), x, y);
    }
}

/// A room's tile sequence holds, at any coordinate the room covers, exactly
/// [`room_tile_at`], and nothing anywhere else.
pub proof fn lemma_room_tiles_lookup(room: Room, x: int, y: int)
    requires
        room.wf(),
    ensures
        spec_tile_at(room.spec_tiles(), x, y) == (if room.covers(x, y) {
            Some(room_tile_at(room, x, y))
        } else {
            Option::<Tile>::None
        }),
{
    let w = room.size.x as int;
    let h = room.size.y as int;
    let px = room.position.x as int;
    let py = room.position.y as int;
    let ts = room.spec_tiles();
    assert(0 < w * h) by (nonlinear_arith)
        requires
            0 < w,
            0 < h,
    ;
    assert(ts.len() == w * h);
    assert forall|j: int| 0 <= j < ts.len() implies {
        let q = j / w;
        let r = j % w;
        #[trigger] ts[j] == room.spec_tile(j)
            && ts[j].position.x == px + r
            && ts[j].position.y == py + q
            && 0 <= r < w
            && 0 <= q < h
    } by {
        lemma_fundamental_div_mod(j, w);
        lemma_mod_bound(j, w);
        assert(0 <= j / w && j / w < h) by (nonlinear_arith)
            requires
                0 <= j,
                j < w * h,
                0 < w,
                j == w * (j / w) + (j % w),
                0 <= j % w < w,
        ;
    }
    if room.covers(x, y) {
        let i = (y - py) * w + (x - px);
        assert(0 <= i < w * h) by (nonlinear_arith)
            requires
                0 <= y - py < h,
                0 <= x - px < w,
                0 < w,
                i == (y - py) * w + (x - px),
        ;
        lemma_fundamental_div_mod_converse(i, w, y - py, x - px);
        assert(ts[i].position.x == x && ts[i].position.y == y);
        assert forall|j: int| 0 <= j < i
            implies !((#[trigger] ts[j]).position.x == x && ts[j].position.y == y) by {
            if ts[j].position.x == x && ts[j].position.y == y {
                lemma_fundamental_div_mod(j, w);
                assert(j % w == x - px && j / w == y - py);
                vstd::arithmetic::mul::lemma_mul_is_commutative(w, y - py);
                assert(j == i);
            }
        }
        lemma_tile_at_first_match(ts, x, y, i);
        assert(ts[i] == room_tile_at(room, x, y));
    } else {
        assert forall|j: int| 0 <= j < ts.len()
            implies !((#[trigger] ts[j]).position.x == x && ts[j].position.y == y) by {
        }
        lemma_tile_at_no_match(ts, x, y);
    }
}

/// After tiling every room in order, a lookup resolves to a pre-existing
/// tile if the coordinate was occupied, else to the first covering room's
/// tile.
pub proof fn lemma_rooms_phase(tiles: Seq<Tile>, rooms: Seq<Room>, x: int, y: int)
    requires
        forall|k: int| 0 <= k < rooms.len() ==> (#[trigger] rooms[k]).wf(),
    ensures
        spec_tile_at(spec_rooms_tiles(tiles, rooms), x, y) == (match spec_tile_at(
            tiles, x, y) {
            Some(u) => Some(u),
            None => spec_room_lookup(rooms, x, y),
        }),
    decreases rooms.len(),
{
    if rooms.len() > 0 {
        let tiles2 = spec_insert_all(tiles, rooms[0].spec_tiles());
        lemma_tile_at_insert_all(tiles, rooms[0].spec_tiles(), x, y);
        lemma_room_tiles_lookup(rooms[0], x, y);
        assert(forall|k: int| 0 <= k < rooms.len() - 1
            ==> #[trigger] rooms.drop_first()[k] == rooms[k + 1]);
        lemma_rooms_phase(tiles2, rooms.drop_first(), x, y);
    }
}

/// Corridor carving never disturbs an occupied coordinate.
pub proof fn lemma_corridors_preserve(tiles: Seq<Tile>, rooms: Seq<Room>, i: int, x: int, y: int)
    requires
        spec_tile_at(tiles, x, y) is Some,
    ensures
        spec_tile_at(spec_corridors_from(tiles, rooms, i), x, y) == spec_tile_at(
            tiles, x, y),
    decreases rooms.len() - i,
{
    if !(i < 0 || i + 1 >= rooms.len()) {
        let corridor = spec_corridor(
            rooms[i].center_x(),
            rooms[i].center_y(),
            rooms[i + 1].center_x(),
            rooms[i + 1].center_y(),
        );
        let tiles2 = spec_insert_all(tiles, corridor);
        lemma_tile_at_insert_all(tiles, corridor, x, y);
        lemma_corridors_preserve(tiles2, rooms, i + 1, x, y);
    }
}

/// The first covering room in list order decides the lookup.
proof fn lemma_room_lookup_first(rooms: Seq<Room>, i: int, x: int, y: int)
    requires
        0 <= i < rooms.len(),
        rooms[i].covers(x, y),
        forall|k: int| 0 <= k < i ==> !(#[trigger] rooms[k]).covers(x, y),
    ensures
        spec_room_lookup(rooms, x, y) == Some(room_tile_at(rooms[i], x, y)),
    decreases i,
{
    if i > 0 {
        assert(forall|k: int| 0 <= k < rooms.len() - 1
            ==> #[trigger] rooms.drop_first()[k] == rooms[k + 1]);
        lemma_room_lookup_first(rooms.drop_first(), i - 1, x, y);
    }
}

/// First writer wins across the whole build: at a coordinate covered by
/// some room, the built grid holds exactly the tile of the first covering
/// room in list order; later overlapping rooms and corridors never
/// overwrite it. `build` accepts any well-formed room list, overlapping
/// rooms included, without failing.
pub proof fn lemma_first_writer_wins(rooms: Seq<Room>, i: int, x: int, y: int)
    requires
        forall|k: int| 0 <= k < rooms.len() ==> (#[trigger] rooms[k]).wf(),
        0 <= i < rooms.len(),
        rooms[i].covers(x, y),
        forall|k: int| 0 <= k < i ==> !(#[trigger] rooms[k]).covers(x, y),
    ensures
        spec_tile_at(spec_build_tiles(rooms), x, y) == Some(room_tile_at(rooms[i], x, y)),
{
    lemma_room_lookup_first(rooms, i, x, y);
    lemma_rooms_phase(Seq::empty(), rooms, x, y);
    lemma_corridors_preserve(spec_rooms_tiles(Seq::empty(), rooms), rooms, 0, x, y);
}

} // verus!

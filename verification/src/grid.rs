//! The tile grid: one tile per coordinate, first writer wins.

use vstd::prelude::*;

use crate::room::Room;
use crate::tile::GridCoordinate;
use crate::tile::Tile;

verus! {

/// The first tile of `tiles` lying at `(x, y)`, if any.
///
/// A tile sequence models a map from coordinates to tiles in which the
/// earliest write is the binding one; later tiles at the same coordinate
/// are shadowed.
pub open spec fn spec_tile_at(tiles: Seq<Tile>, x: int, y: int) -> Option<Tile>
    decreases tiles.len(),
{
    if tiles.len() == 0 {
        None
    } else if tiles[0].position.x == x && tiles[0].position.y == y {
        Some(tiles[0])
    } else {
        spec_tile_at(tiles.drop_first(), x, y)
    }
}

/// Some tile already lies at `(x, y)`.
pub open spec fn spec_occupied(tiles: Seq<Tile>, x: int, y: int) -> bool {
    spec_tile_at(tiles, x, y) is Some
}

/// First-writer-wins insertion: a write to an occupied coordinate is a no-op.
pub open spec fn spec_insert(tiles: Seq<Tile>, t: Tile) -> Seq<Tile> {
    if spec_occupied(tiles, t.position.x as int, t.position.y as int) {
        tiles
    } else {
        tiles.push(t)
    }
}

/// Appending a tile changes lookups only at its own, previously free,
/// coordinate.
pub proof fn lemma_tile_at_push(tiles: Seq<Tile>, t: Tile, x: int, y: int)
    ensures
        spec_tile_at(tiles.push(t), x, y) == (match spec_tile_at(tiles, x, y) {
            Some(u) => Some(u),
            None => if t.position.x == x && t.position.y == y {
                Some(t)
            } else {
                None
            },
        }),
    decreases tiles.len(),
{
    if tiles.len() == 0 {
        assert(tiles.push(t).drop_first() =~= tiles);
    } else {
        assert(tiles.push(t).drop_first() =~= tiles.drop_first().push(t));
        lemma_tile_at_push(tiles.drop_first(), t, x, y);
    }
}

/// Insertion changes lookups only at the inserted tile's coordinate, and
/// there only when it was free.
pub proof fn lemma_tile_at_insert(tiles: Seq<Tile>, t: Tile, x: int, y: int)
    ensures
        spec_tile_at(spec_insert(tiles, t), x, y) == (match spec_tile_at(tiles, x, y) {
            Some(u) => Some(u),
            None => if t.position.x == x && t.position.y == y
                && !spec_occupied(tiles, x, y) {
                Some(t)
            } else {
                None
            },
        }),
{
    if !spec_occupied(tiles, t.position.x as int, t.position.y as int) {
        lemma_tile_at_push(tiles, t, x, y);
    }
}

/// The dungeon's queryable grid: the tiles written so far (first writer
/// wins) and the rooms in generation order.
pub struct DungeonGrid {
    pub tiles: Vec<Tile>,
    pub rooms: Vec<Room>,
}

impl Default for DungeonGrid {
    /// An empty grid: no tiles, no rooms.
    fn default() -> (grid: DungeonGrid)
        ensures
            grid.tiles@ == Seq::<Tile>::empty(),
            grid.rooms@ == Seq::<Room>::empty(),
    {
        DungeonGrid { tiles: Vec::new(), rooms: Vec::new() }
    }
}

/// The first tile of `tiles` at `coord`, if any.
pub(crate) fn find_tile(tiles: &Vec<Tile>, coord: GridCoordinate) -> (r: Option<Tile>)
    ensures
        r == spec_tile_at(tiles@, coord.x as int, coord.y as int),
{
    let ghost all = tiles@;
    proof {
        assert(all.subrange(0, all.len() as int) =~= all);
    }
    let mut k: usize = 0;
    while k < tiles.len()
        invariant
            k <= all.len(),
            tiles@ == all,
            spec_tile_at(all, coord.x as int, coord.y as int) == spec_tile_at(
                all.subrange(k as int, all.len() as int),
                coord.x as int,
                coord.y as int,
            ),
        decreases all.len() - k,
    {
        let ghost rest = all.subrange(k as int, all.len() as int);
        let t = tiles[k];
        if t.position.x == coord.x && t.position.y == coord.y {
            assert(rest[0] == t);
            return Some(t);
        }
        proof {
            assert(rest.drop_first() =~= all.subrange(k + 1, all.len() as int));
        }
        k += 1;
    }
    None
}

/// Append `t` unless its coordinate is already occupied.
pub(crate) fn insert_first_wins(tiles: &mut Vec<Tile>, t: Tile)
    ensures
        final(tiles)@ == spec_insert(old(tiles)@, t),
{
    let existing = find_tile(tiles, t.position);
    if existing.is_none() {
        tiles.push(t);
    }
}

impl DungeonGrid {
    /// The tile recorded at `coord`, if any.
    pub fn tile_at(&self, coord: GridCoordinate) -> (r: Option<Tile>)
        ensures
            r == spec_tile_at(self.tiles@, coord.x as int, coord.y as int),
    {
        find_tile(&self.tiles, coord)
    }

    /// An actor may stand at `coord`: a tile lies there and its type is
    /// walkable. Unmapped coordinates are implicitly non-walkable.
    pub fn is_walkable(&self, coord: GridCoordinate) -> (r: bool)
        ensures
            r == spec_walkable_at(self.tiles@, coord.x as int, coord.y as int),
    {
        match self.tile_at(coord) {
            Some(t) => t.is_walkable(),
            None => false,
        }
    }
}

/// A tile lies at `(x, y)` and its type is walkable.
pub open spec fn spec_walkable_at(tiles: Seq<Tile>, x: int, y: int) -> bool {
    match spec_tile_at(tiles, x, y) {
        Some(t) => t.tile_type.spec_walkable(),
        None => false,
    }
}

} // verus!

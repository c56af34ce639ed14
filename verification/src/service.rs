//! A single owner for the dungeon: it runs a generation pass and then hands
//! out its grid, read-only, to whoever queries it.

use vstd::prelude::*;

use crate::builder::build;
use crate::builder::spec_build_tiles;
use crate::grid::DungeonGrid;
use crate::placement::PlacementError;
use crate::placement::place_rooms;
use crate::placement::spec_config_error;
use crate::random::RandomSource;
use crate::room::Rect;
use crate::room::Room;
use crate::tile::GridCoordinate;
use crate::tile::Tile;

verus! {

/// Owns the grid across generation runs; consumers borrow it read-only.
pub struct DungeonService {
    pub grid: DungeonGrid,
}

impl DungeonService {
    /// A service holding an empty grid, before the first generation run.
    pub fn new() -> (s: DungeonService)
        ensures
            s.grid.tiles@ == Seq::<Tile>::empty(),
            s.grid.rooms@ == Seq::<Room>::empty(),
    {
        DungeonService { grid: DungeonGrid { tiles: Vec::new(), rooms: Vec::new() } }
    }

    /// One full generation run: place rooms, then replace the whole grid
    /// with the one built from them. A rejected configuration leaves the
    /// previous grid untouched.
    pub fn regenerate(
        &mut self,
        bounds: Rect,
        min_size: GridCoordinate,
        max_size: GridCoordinate,
        max_rooms: usize,
        max_attempts: i32,
        rng: &mut RandomSource,
    ) -> (r: Result<(), PlacementError>)
        ensures
            (match r {
                Err(e) => {
                    &&& final(self).grid == old(self).grid
                    &&& Some(e) == spec_config_error(bounds, min_size, max_size, max_attempts)
                },
                Ok(_) => {
                    let rooms = final(self).grid.rooms@;
                    &&& spec_config_error(bounds, min_size, max_size, max_attempts) is None
                    &&& final(self).grid.tiles@ == spec_build_tiles(rooms)
                    &&& rooms.len() <= max_rooms
                    &&& max_rooms > 0 ==> rooms.len() >= 1
                    &&& forall|i: int| 0 <= i < rooms.len() ==> {
                        &&& (#[trigger] rooms[i]).wf()
                        &&& rooms[i].in_bounds(bounds)
                        &&& min_size.x <= rooms[i].size.x <= max_size.x
                        &&& min_size.y <= rooms[i].size.y <= max_size.y
                    }
                    &&& forall|i: int, j: int| 0 <= i < j < rooms.len()
                        ==> !(#[trigger] rooms[i].spec_intersects(#[trigger] rooms[j]))
                },
            }),
    {
        match place_rooms(bounds, min_size, max_size, max_rooms, max_attempts, rng) {
            Ok(rooms) => {
                self.grid = build(rooms);
                Ok(())
            },
            Err(e) => Err(e),
        }
    }
}

} // verus!

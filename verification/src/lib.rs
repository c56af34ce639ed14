//! Procedural dungeon generation and grid-based collision resolution.
//!
//! The crate places random, non-overlapping rectangular rooms inside a
//! bounded grid, turns them into a tile grid connected by corridors, and
//! answers occupancy, walkability and nearest-walkable-tile queries on the
//! result.

mod builder;
mod collision;
mod grid;
mod laws;
mod placement;
mod random;
mod room;
mod service;
mod tile;

pub use builder::build;
pub use builder::floor_tile;
pub use builder::horizontal_run;
pub use builder::lemma_insert_all_concat;
pub use builder::spec_build_tiles;
pub use builder::spec_corridor;
pub use builder::spec_corridors_from;
pub use builder::spec_insert_all;
pub use builder::spec_rooms_tiles;
pub use builder::vertical_run;
pub use collision::is_nearest_result;
pub use collision::neighbor_x;
pub use collision::neighbor_y;
pub use collision::scan_offset;
pub use collision::spec_dist2;
pub use collision::walkable_neighbor;
pub use grid::DungeonGrid;
pub use grid::lemma_tile_at_insert;
pub use grid::lemma_tile_at_push;
pub use grid::spec_insert;
pub use grid::spec_occupied;
pub use grid::spec_tile_at;
pub use grid::spec_walkable_at;
pub use laws::lemma_build_deterministic;
pub use laws::lemma_corridors_preserve;
pub use laws::lemma_first_writer_wins;
pub use laws::lemma_room_tiles_lookup;
pub use laws::lemma_rooms_phase;
pub use laws::lemma_tile_at_insert_all;
pub use laws::lemma_tile_at_own_position;
pub use laws::lemma_uncovered_coordinate_floor_or_empty;
pub use laws::room_tile_at;
pub use laws::spec_room_lookup;
pub use placement::PlacementError;
pub use placement::place_rooms;
pub use placement::spec_config_error;
pub use random::RandomSource;
pub use room::Rect;
pub use room::Room;
pub use room::lemma_intersects_symmetric;
pub use service::DungeonService;
pub use tile::GridCoordinate;
pub use tile::Tile;
pub use tile::TileType;

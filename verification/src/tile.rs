//! The discrete coordinate space and the tiles that fill it.

use vstd::prelude::*;

verus! {

/// A cell address in the dungeon's discrete coordinate space.
///
/// Distinct from a continuous world-space position; the rendering
/// convention `world = grid * cell_size` relates the two.
#[derive(Clone, Copy, PartialEq, Eq, Structural, Debug)]
pub struct GridCoordinate {
    pub x: i32,
    pub y: i32,
}

/// The kind of a tile; it alone determines walkability.
#[derive(Clone, Copy, PartialEq, Eq, Structural, Debug)]
pub enum TileType {
    Floor,
    Wall,
    Door,
    Empty,
}

/// A tile of the dungeon grid; its identity is its position.
#[derive(Clone, Copy, PartialEq, Eq, Structural, Debug)]
pub struct Tile {
    pub tile_type: TileType,
    pub position: GridCoordinate,
}

impl TileType {
    /// An actor may legally occupy `Floor` and `Door` tiles only.
    pub open spec fn spec_walkable(self) -> bool {
        self == TileType::Floor || self == TileType::Door
    }
}

impl Tile {
    pub fn new(tile_type: TileType, position: GridCoordinate) -> (t: Tile)
        ensures
            t.tile_type == tile_type,
            t.position == position,
    {
        Tile { tile_type, position }
    }

    /// Whether an actor may legally occupy this tile.
    pub fn is_walkable(&self) -> (r: bool)
        ensures
            r == self.tile_type.spec_walkable(),
    {
        matches!(self.tile_type, TileType::Floor | TileType::Door)
    }
}

} // verus!

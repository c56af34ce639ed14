//! Rectangular rooms: their geometry, random placement and tiling.

use vstd::prelude::*;
use vstd::arithmetic::div_mod::lemma_fundamental_div_mod_converse;

use crate::random::RandomSource;
use crate::tile::GridCoordinate;
use crate::tile::Tile;
use crate::tile::TileType;

verus! {

/// An axis-aligned placement area: room positions start at `min` and room
/// end bounds (exclusive) may reach up to `max`.
#[derive(Clone, Copy, PartialEq, Eq, Structural, Debug)]
pub struct Rect {
    pub min: GridCoordinate,
    pub max: GridCoordinate,
}

/// A rectangular room: a top-left `position` and a positive `size`
/// (`size.x` is the width, `size.y` the height). The exclusive end bound is
/// `position + size`.
#[derive(Clone, Copy, PartialEq, Eq, Structural, Debug)]
pub struct Room {
    pub position: GridCoordinate,
    pub size: GridCoordinate,
}

impl Room {
    /// Positive extents whose end bound still fits the coordinate space.
    pub open spec fn wf(self) -> bool {
        &&& 0 < self.size.x
        &&& 0 < self.size.y
        &&& self.position.x + self.size.x <= i32::MAX
        &&& self.position.y + self.size.y <= i32::MAX
    }

    /// The exclusive end bound `position + size`, per axis.
    pub open spec fn end_x(self) -> int {
        self.position.x + self.size.x
    }

    pub open spec fn end_y(self) -> int {
        self.position.y + self.size.y
    }

    /// Buffered intersection: the bounding boxes, each grown by one tile on
    /// every side, overlap. Rooms that merely touch edges still intersect.
    pub open spec fn spec_intersects(self, other: Room) -> bool {
        !(self.end_x() + 1 <= other.position.x
            || self.position.x >= other.end_x() + 1
            || self.end_y() + 1 <= other.position.y
            || self.position.y >= other.end_y() + 1)
    }

    /// The room's footprint contains the coordinate `(x, y)`.
    pub open spec fn covers(self, x: int, y: int) -> bool {
        &&& self.position.x <= x < self.end_x()
        &&& self.position.y <= y < self.end_y()
    }

    /// The footprint lies within `bounds`.
    pub open spec fn in_bounds(self, bounds: Rect) -> bool {
        &&& bounds.min.x <= self.position.x
        &&& bounds.min.y <= self.position.y
        &&& self.end_x() <= bounds.max.x
        &&& self.end_y() <= bounds.max.y
    }

    /// The center `position + size / 2` (integer division).
    pub open spec fn center_x(self) -> int
        recommends self.wf(),
    {
        self.position.x + self.size.x / 2
    }

    pub open spec fn center_y(self) -> int
        recommends self.wf(),
    {
        self.position.y + self.size.y / 2
    }

    pub fn new(position: GridCoordinate, size: GridCoordinate) -> (room: Room)
        requires
            0 < size.x,
            0 < size.y,
            position.x + size.x <= i32::MAX,
            position.y + size.y <= i32::MAX,
        ensures
            room.position == position,
            room.size == size,
            room.wf(),
    {
        Room { position, size }
    }

    /// Draw a uniform size in `[min_size, max_size]` per axis, then a uniform
    /// position keeping the footprint within `[min_pos, max_pos]`.
    pub fn random(
        min_pos: GridCoordinate,
        max_pos: GridCoordinate,
        min_size: GridCoordinate,
        max_size: GridCoordinate,
        rng: &mut RandomSource,
    ) -> (room: Room)
        requires
            0 < min_size.x,
            0 < min_size.y,
            min_size.x <= max_size.x,
            min_size.y <= max_size.y,
            max_size.x <= max_pos.x - min_pos.x,
            max_size.y <= max_pos.y - min_pos.y,
        ensures
            room.wf(),
            min_size.x <= room.size.x <= max_size.x,
            min_size.y <= room.size.y <= max_size.y,
            room.in_bounds(Rect { min: min_pos, max: max_pos }),
    {
        let width = rng.next_in_range(min_size.x, max_size.x);
        let height = rng.next_in_range(min_size.y, max_size.y);
        let x = rng.next_in_range(min_pos.x, max_pos.x - width);
        let y = rng.next_in_range(min_pos.y, max_pos.y - height);
        Room {
            position: GridCoordinate { x, y },
            size: GridCoordinate { x: width, y: height },
        }
    }

    /// The tile of local cell `i` in row-major order: local coordinates
    /// `(i % width, i / width)`; `Wall` on the room's perimeter, `Floor`
    /// inside.
    pub open spec fn spec_tile(self, i: int) -> Tile
        recommends
            self.wf(),
            0 <= i < self.size.x * self.size.y,
    {
        let lx = i % (self.size.x as int);
        let ly = i / (self.size.x as int);
        Tile {
            tile_type: if lx == 0 || ly == 0 || lx == self.size.x - 1 || ly == self.size.y - 1 {
                TileType::Wall
            } else {
                TileType::Floor
            },
            position: GridCoordinate {
                x: (self.position.x + lx) as i32,
                y: (self.position.y + ly) as i32,
            },
        }
    }

    /// Every tile of the room, in row-major order.
    pub open spec fn spec_tiles(self) -> Seq<Tile>
        recommends
            self.wf(),
    {
        Seq::new((self.size.x * self.size.y) as nat, |i: int| self.spec_tile(i))
    }

    /// Emit every tile of the room's footprint in row-major order.
    pub fn generate_tiles(&self) -> (r: Vec<Tile>)
        requires
            self.wf(),
        ensures
            r@ == self.spec_tiles(),
    {
        let w = self.size.x;
        let h = self.size.y;
        let mut tiles: Vec<Tile> = Vec::new();
        let mut y: i32 = 0;
        while y < h
            invariant
                self.wf(),
                w == self.size.x,
                h == self.size.y,
                0 <= y <= h,
                tiles@.len() == y * w,
                forall|i: int| 0 <= i < tiles@.len() ==> tiles@[i] == self.spec_tile(i),
            decreases h - y,
        {
            let mut x: i32 = 0;
            proof {
                assert(0 <= y * w) by (nonlinear_arith)
                    requires 0 <= y && 0 < w;
            }
            while x < w
                invariant
                    self.wf(),
                    w == self.size.x,
                    h == self.size.y,
                    0 <= y < h,
                    0 <= x <= w,
                    tiles@.len() == y * w + x,
                    0 <= y * w,
                    forall|i: int| 0 <= i < tiles@.len() ==> tiles@[i] == self.spec_tile(i),
                decreases w - x,
            {
                let tile_type = if x == 0 || y == 0 || x == w - 1 || y == h - 1 {
                    TileType::Wall
                } else {
                    TileType::Floor
                };
                let pos = GridCoordinate {
                    x: self.position.x + x,
                    y: self.position.y + y,
                };
                proof {
                    lemma_fundamental_div_mod_converse(
                        y * w + x, w as int, y as int, x as int);
                }
                tiles.push(Tile { tile_type, position: pos });
                x += 1;
            }
            proof {
                assert((y + 1) * w == y * w + w) by (nonlinear_arith);
            }
            y += 1;
        }
        proof {
            assert(h * w == w * h) by (nonlinear_arith);
            assert(tiles@ =~= self.spec_tiles());
        }
        tiles
    }

    /// Buffered intersection test; see [`Room::spec_intersects`].
    pub fn intersects(&self, other: &Room) -> (r: bool)
        ensures
            r == self.spec_intersects(*other),
    {
        let self_end_x: i64 = self.position.x as i64 + self.size.x as i64;
        let self_end_y: i64 = self.position.y as i64 + self.size.y as i64;
        let other_end_x: i64 = other.position.x as i64 + other.size.x as i64;
        let other_end_y: i64 = other.position.y as i64 + other.size.y as i64;

        !(self_end_x + 1 <= other.position.x as i64
            || self.position.x as i64 >= other_end_x + 1
            || self_end_y + 1 <= other.position.y as i64
            || self.position.y as i64 >= other_end_y + 1)
    }

    /// The room's center tile.
    pub fn center(&self) -> (c: GridCoordinate)
        requires
            self.wf(),
        ensures
            c.x == self.center_x(),
            c.y == self.center_y(),
    {
        GridCoordinate {
            x: self.position.x + self.size.x / 2,
            y: self.position.y + self.size.y / 2,
        }
    }
}

/// Intersection is symmetric: growing either box by the one-tile buffer
/// rejects the same pairs.
pub proof fn lemma_intersects_symmetric(a: Room, b: Room)
    ensures
        a.spec_intersects(b) == b.spec_intersects(a),
{
}

} // verus!

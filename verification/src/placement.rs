//! RoomPlacer: rejection sampling of non-overlapping rooms within bounds.

use vstd::prelude::*;

use crate::random::RandomSource;
use crate::tile::GridCoordinate;
use crate::room::Rect;
use crate::room::Room;
use crate::room::lemma_intersects_symmetric;

verus! {

/// Why a placement configuration was rejected.
#[derive(Clone, Copy, PartialEq, Eq, Structural, Debug)]
pub enum PlacementError {
    /// A minimum room extent is zero or negative.
    NonPositiveRoomSize,
    /// The minimum room size exceeds the maximum on some axis.
    InvertedSizeRange,
    /// The placement bounds end before they begin on some axis.
    InvertedBounds,
    /// The largest allowed room cannot fit inside the bounds.
    RoomTooLargeForBounds,
    /// The attempt budget is zero or negative.
    NonPositiveAttempts,
}

/// The error, if any, that a placement configuration is rejected with;
/// checked in this order.
pub open spec fn spec_config_error(
    bounds: Rect,
    min_size: GridCoordinate,
    max_size: GridCoordinate,
    max_attempts: i32,
) -> Option<PlacementError> {
    if min_size.x <= 0 || min_size.y <= 0 {
        Some(PlacementError::NonPositiveRoomSize)
    } else if max_size.x < min_size.x || max_size.y < min_size.y {
        Some(PlacementError::InvertedSizeRange)
    } else if bounds.max.x < bounds.min.x || bounds.max.y < bounds.min.y {
        Some(PlacementError::InvertedBounds)
    } else if max_size.x > bounds.max.x - bounds.min.x
        || max_size.y > bounds.max.y - bounds.min.y {
        Some(PlacementError::RoomTooLargeForBounds)
    } else if max_attempts <= 0 {
        Some(PlacementError::NonPositiveAttempts)
    } else {
        None
    }
}

/// Whether `room` (buffered) intersects any room of `rooms`.
fn overlaps_any(room: &Room, rooms: &Vec<Room>) -> (r: bool)
    ensures
        r == exists|i: int|
            0 <= i < rooms@.len() && room.spec_intersects(#[trigger] rooms@[i]),
{
    let mut k: usize = 0;
    while k < rooms.len()
        invariant
            k <= rooms@.len(),
            forall|i: int| 0 <= i < k ==> !room.spec_intersects(#[trigger] rooms@[i]),
        decreases rooms@.len() - k,
    {
        if room.intersects(&rooms[k]) {
            return true;
        }
        k += 1;
    }
    false
}

/// Place up to `max_rooms` random rooms inside `bounds` by rejection
/// sampling: draw a size in `[min_size, max_size]` and a position keeping
/// the footprint inside the bounds, and accept the candidate only if its
/// one-tile-buffered bounding box intersects no accepted room. Every draw,
/// accepted or not, spends one attempt; the loop stops at `max_rooms`
/// accepted rooms or `max_attempts` attempts, whichever comes first, so
/// fewer than `max_rooms` rooms is a valid outcome of dense packing.
///
/// The first candidate is tested against an empty list and therefore
/// always accepted, so a valid configuration with `max_rooms > 0` yields
/// at least one room.
///
/// An invalid configuration is rejected up front, exactly as
/// [`spec_config_error`] says.
pub fn place_rooms(
    bounds: Rect,
    min_size: GridCoordinate,
    max_size: GridCoordinate,
    max_rooms: usize,
    max_attempts: i32,
    rng: &mut RandomSource,
) -> (r: Result<Vec<Room>, PlacementError>)
    ensures
        (match r {
            Err(e) => Some(e) == spec_config_error(
                bounds, min_size, max_size, max_attempts),
            Ok(rooms) => {
                &&& spec_config_error(bounds, min_size, max_size, max_attempts) is None
                &&& rooms@.len() <= max_rooms
                &&& max_rooms > 0 ==> rooms@.len() >= 1
                &&& forall|i: int| 0 <= i < rooms@.len() ==> {
                    &&& (#[trigger] rooms@[i]).wf()
                    &&& rooms@[i].in_bounds(bounds)
                    &&& min_size.x <= rooms@[i].size.x <= max_size.x
                    &&& min_size.y <= rooms@[i].size.y <= max_size.y
                }
                &&& forall|i: int, j: int| 0 <= i < j < rooms@.len()
                    ==> !(#[trigger] rooms@[i].spec_intersects(#[trigger] rooms@[j]))
            },
        }),
{
    if min_size.x <= 0 || min_size.y <= 0 {
        return Err(PlacementError::NonPositiveRoomSize);
    }
    if max_size.x < min_size.x || max_size.y < min_size.y {
        return Err(PlacementError::InvertedSizeRange);
    }
    if bounds.max.x < bounds.min.x || bounds.max.y < bounds.min.y {
        return Err(PlacementError::InvertedBounds);
    }
    if max_size.x as i64 > bounds.max.x as i64 - bounds.min.x as i64
        || max_size.y as i64 > bounds.max.y as i64 - bounds.min.y as i64 {
        return Err(PlacementError::RoomTooLargeForBounds);
    }
    if max_attempts <= 0 {
        return Err(PlacementError::NonPositiveAttempts);
    }

    let mut rooms: Vec<Room> = Vec::new();
    let mut attempts: i32 = 0;
    while rooms.len() < max_rooms && attempts < max_attempts
        invariant
            0 < min_size.x,
            0 < min_size.y,
            min_size.x <= max_size.x,
            min_size.y <= max_size.y,
            max_size.x <= bounds.max.x - bounds.min.x,
            max_size.y <= bounds.max.y - bounds.min.y,
            1 <= max_attempts,
            0 <= attempts <= max_attempts,
            rooms@.len() <= max_rooms,
            rooms@.len() == 0 ==> attempts == 0,
            forall|i: int| 0 <= i < rooms@.len() ==> {
                &&& (#[trigger] rooms@[i]).wf()
                &&& rooms@[i].in_bounds(bounds)
                &&& min_size.x <= rooms@[i].size.x <= max_size.x
                &&& min_size.y <= rooms@[i].size.y <= max_size.y
            },
            forall|i: int, j: int| 0 <= i < j < rooms@.len()
                ==> !(#[trigger] rooms@[i].spec_intersects(#[trigger] rooms@[j])),
        decreases max_attempts - attempts,
    {
        let room = Room::random(bounds.min, bounds.max, min_size, max_size, rng);
        if !overlaps_any(&room, &rooms) {
            proof {
                assert forall|i: int| 0 <= i < rooms@.len()
                    implies !rooms@[i].spec_intersects(room) by {
                    lemma_intersects_symmetric(rooms@[i], room);
                }
            }
            rooms.push(room);
        }
        attempts += 1;
    }
    Ok(rooms)
}

} // verus!

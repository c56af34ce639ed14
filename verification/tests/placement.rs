use dungeon_core::GridCoordinate;
use dungeon_core::PlacementError;
use dungeon_core::RandomSource;
use dungeon_core::Rect;
use dungeon_core::Room;
use dungeon_core::place_rooms;

fn coord(x: i32, y: i32) -> GridCoordinate {
    GridCoordinate { x, y }
}

fn standard_bounds() -> Rect {
    Rect { min: coord(1, 1), max: coord(29, 29) }
}

#[test]
fn placed_rooms_do_not_overlap() {
    let mut rng = RandomSource::from_seed(42);
    let rooms = place_rooms(standard_bounds(), coord(5, 5), coord(10, 10), 10, 100, &mut rng)
        .expect("valid configuration");
    assert!(rooms.len() <= 10);
    for i in 0..rooms.len() {
        for j in 0..rooms.len() {
            if i != j {
                assert!(!rooms[i].intersects(&rooms[j]));
            }
        }
    }
}

#[test]
fn placed_rooms_stay_in_bounds() {
    let bounds = standard_bounds();
    let mut rng = RandomSource::from_seed(7);
    let rooms = place_rooms(bounds, coord(5, 5), coord(10, 10), 10, 100, &mut rng)
        .expect("valid configuration");
    assert!(!rooms.is_empty());
    for room in &rooms {
        assert!(room.size.x >= 5 && room.size.x <= 10);
        assert!(room.size.y >= 5 && room.size.y <= 10);
        assert!(room.position.x >= bounds.min.x);
        assert!(room.position.y >= bounds.min.y);
        assert!(room.position.x + room.size.x <= bounds.max.x);
        assert!(room.position.y + room.size.y <= bounds.max.y);
    }
}

#[test]
fn placement_is_deterministic_for_a_seed() {
    let mut rng_a = RandomSource::from_seed(1234);
    let mut rng_b = RandomSource::from_seed(1234);
    let rooms_a = place_rooms(standard_bounds(), coord(5, 5), coord(10, 10), 10, 100, &mut rng_a)
        .expect("valid configuration");
    let rooms_b = place_rooms(standard_bounds(), coord(5, 5), coord(10, 10), 10, 100, &mut rng_b)
        .expect("valid configuration");
    assert_eq!(rooms_a, rooms_b);
}

#[test]
fn zero_rooms_requested_yields_empty_list() {
    let mut rng = RandomSource::from_seed(3);
    let rooms = place_rooms(standard_bounds(), coord(5, 5), coord(10, 10), 0, 100, &mut rng)
        .expect("valid configuration");
    assert_eq!(rooms.len(), 0);
}

#[test]
fn non_positive_room_size_is_rejected() {
    let mut rng = RandomSource::from_seed(0);
    let r = place_rooms(standard_bounds(), coord(0, 5), coord(10, 10), 10, 100, &mut rng);
    assert_eq!(r, Err(PlacementError::NonPositiveRoomSize));
}

#[test]
fn inverted_size_range_is_rejected() {
    let mut rng = RandomSource::from_seed(0);
    let r = place_rooms(standard_bounds(), coord(6, 6), coord(5, 9), 10, 100, &mut rng);
    assert_eq!(r, Err(PlacementError::InvertedSizeRange));
}

#[test]
fn inverted_bounds_are_rejected() {
    let mut rng = RandomSource::from_seed(0);
    let bounds = Rect { min: coord(10, 10), max: coord(5, 5) };
    let r = place_rooms(bounds, coord(2, 2), coord(3, 3), 10, 100, &mut rng);
    assert_eq!(r, Err(PlacementError::InvertedBounds));
}

#[test]
fn oversized_rooms_are_rejected() {
    let mut rng = RandomSource::from_seed(0);
    let bounds = Rect { min: coord(1, 1), max: coord(4, 4) };
    let r = place_rooms(bounds, coord(2, 2), coord(5, 5), 10, 100, &mut rng);
    assert_eq!(r, Err(PlacementError::RoomTooLargeForBounds));
}

#[test]
fn non_positive_attempts_are_rejected() {
    let mut rng = RandomSource::from_seed(0);
    let r = place_rooms(standard_bounds(), coord(5, 5), coord(10, 10), 10, 0, &mut rng);
    assert_eq!(r, Err(PlacementError::NonPositiveAttempts));
}

#[test]
fn touching_rooms_count_as_intersecting() {
    let a = Room::new(coord(0, 0), coord(3, 3));
    let touching = Room::new(coord(3, 0), coord(3, 3));
    let gapped = Room::new(coord(4, 0), coord(3, 3));
    assert!(a.intersects(&touching));
    assert!(touching.intersects(&a));
    assert!(!a.intersects(&gapped));
    assert!(!gapped.intersects(&a));
}

#[test]
fn room_center_is_position_plus_half_size() {
    let a = Room::new(coord(0, 0), coord(5, 5));
    let b = Room::new(coord(6, 3), coord(5, 5));
    assert_eq!(a.center(), coord(2, 2));
    assert_eq!(b.center(), coord(8, 5));
}

use dungeon_core::DungeonGrid;
use dungeon_core::DungeonService;
use dungeon_core::GridCoordinate;
use dungeon_core::PlacementError;
use dungeon_core::RandomSource;
use dungeon_core::Rect;
use dungeon_core::Room;
use dungeon_core::Tile;
use dungeon_core::TileType;
use dungeon_core::build;

fn coord(x: i32, y: i32) -> GridCoordinate {
    GridCoordinate { x, y }
}

#[test]
fn empty_room_list_builds_empty_grid() {
    let grid = build(Vec::new());
    assert_eq!(grid.tiles.len(), 0);
    assert_eq!(grid.rooms.len(), 0);
}

#[test]
fn single_room_tiles_walls_and_floor() {
    let grid = build(vec![Room::new(coord(0, 0), coord(4, 4))]);
    assert_eq!(grid.tiles.len(), 16);
    let wall = grid.tile_at(coord(0, 0)).unwrap();
    assert_eq!(wall.tile_type, TileType::Wall);
    let floor = grid.tile_at(coord(1, 1)).unwrap();
    assert_eq!(floor.tile_type, TileType::Floor);
    assert_eq!(grid.tile_at(coord(3, 2)).unwrap().tile_type, TileType::Wall);
    assert!(grid.tile_at(coord(4, 4)).is_none());
}

#[test]
fn build_is_deterministic() {
    let rooms = vec![
        Room::new(coord(0, 0), coord(5, 5)),
        Room::new(coord(6, 3), coord(5, 5)),
    ];
    let a = build(rooms.clone());
    let b = build(rooms);
    assert_eq!(a.tiles, b.tiles);
    assert_eq!(a.rooms, b.rooms);
}

#[test]
fn overlapping_rooms_keep_first_written_tile() {
    let first = Room::new(coord(0, 0), coord(4, 4));
    let second = Room::new(coord(2, 2), coord(4, 4));

    // (2, 2) is interior floor of `first` and would be `second`'s wall
    // corner; whichever room comes first in list order wins.
    let grid = build(vec![first, second]);
    assert_eq!(grid.tile_at(coord(2, 2)).unwrap().tile_type, TileType::Floor);

    let grid = build(vec![second, first]);
    assert_eq!(grid.tile_at(coord(2, 2)).unwrap().tile_type, TileType::Wall);
}

#[test]
fn corridor_carves_l_shaped_runs_between_centers() {
    // Centers (2, 2) and (8, 5): a horizontal run at row 2 from column 2
    // to 8, then a vertical run at column 8 from row 2 to 5, every cell
    // mapped; pre-existing room tiles are kept, walls included.
    let grid = build(vec![
        Room::new(coord(0, 0), coord(5, 5)),
        Room::new(coord(6, 3), coord(5, 5)),
    ]);
    for x in 2..=8 {
        assert!(grid.tile_at(coord(x, 2)).is_some());
    }
    for y in 2..=5 {
        assert!(grid.tile_at(coord(8, y)).is_some());
    }
    // Newly carved cells outside both rooms become floor.
    assert_eq!(grid.tile_at(coord(5, 2)).unwrap().tile_type, TileType::Floor);
    assert_eq!(grid.tile_at(coord(6, 2)).unwrap().tile_type, TileType::Floor);
    assert_eq!(grid.tile_at(coord(8, 2)).unwrap().tile_type, TileType::Floor);
    // The first room's right wall and the second room's top wall lie on
    // the corridor's path and are not overwritten.
    assert_eq!(grid.tile_at(coord(4, 2)).unwrap().tile_type, TileType::Wall);
    assert_eq!(grid.tile_at(coord(8, 3)).unwrap().tile_type, TileType::Wall);
}

#[test]
fn walkability_follows_tile_type_and_presence() {
    let grid = build(vec![Room::new(coord(0, 0), coord(4, 4))]);
    assert!(grid.is_walkable(coord(1, 1)));
    assert!(!grid.is_walkable(coord(0, 0)));
    assert!(!grid.is_walkable(coord(9, 9)));

    let handmade = DungeonGrid {
        tiles: vec![
            Tile::new(TileType::Door, coord(0, 0)),
            Tile::new(TileType::Empty, coord(1, 0)),
        ],
        rooms: Vec::new(),
    };
    assert!(handmade.is_walkable(coord(0, 0)));
    assert!(!handmade.is_walkable(coord(1, 0)));
    assert!(handmade.tile_at(coord(1, 0)).is_some());
}

#[test]
fn tile_walkability_by_type() {
    assert!(Tile::new(TileType::Floor, coord(0, 0)).is_walkable());
    assert!(Tile::new(TileType::Door, coord(0, 0)).is_walkable());
    assert!(!Tile::new(TileType::Wall, coord(0, 0)).is_walkable());
    assert!(!Tile::new(TileType::Empty, coord(0, 0)).is_walkable());
}

fn rescue_grid() -> DungeonGrid {
    DungeonGrid {
        tiles: vec![
            Tile::new(TileType::Wall, coord(5, 5)),
            Tile::new(TileType::Floor, coord(4, 4)),
            Tile::new(TileType::Floor, coord(6, 4)),
        ],
        rooms: Vec::new(),
    }
}

#[test]
fn nearest_walkable_breaks_ties_by_scan_order() {
    // The actor sits exactly on the center of cell (5, 5); the floors at
    // (4, 4) and (6, 4) are equidistant, and (4, 4) comes first in the
    // row-major (dy, dx) scan.
    let grid = rescue_grid();
    let rescue = grid.nearest_walkable(coord(5, 5), 160, 160, 32);
    assert_eq!(rescue, Some(coord(4, 4)));
}

#[test]
fn nearest_walkable_prefers_smaller_distance_over_scan_order() {
    let grid = DungeonGrid {
        tiles: vec![
            Tile::new(TileType::Wall, coord(5, 5)),
            Tile::new(TileType::Floor, coord(4, 4)),
            Tile::new(TileType::Floor, coord(6, 6)),
        ],
        rooms: Vec::new(),
    };
    // The actor stands on the center of cell (6, 6): the later neighbor is
    // strictly closer and wins despite its scan position.
    let rescue = grid.nearest_walkable(coord(5, 5), 192, 192, 32);
    assert_eq!(rescue, Some(coord(6, 6)));
}

#[test]
fn nearest_walkable_finds_nothing_without_walkable_neighbors() {
    let grid = DungeonGrid {
        tiles: vec![Tile::new(TileType::Wall, coord(5, 5))],
        rooms: Vec::new(),
    };
    assert_eq!(grid.nearest_walkable(coord(5, 5), 160, 160, 32), None);
}

#[test]
fn collision_resolves_only_on_non_walkable_tiles() {
    let grid = rescue_grid();
    assert_eq!(grid.resolve_collision(coord(5, 5), 160, 160, 32), Some(coord(4, 4)));
    assert_eq!(grid.resolve_collision(coord(4, 4), 128, 128, 32), None);
    assert_eq!(grid.resolve_collision(coord(20, 20), 640, 640, 32), None);
}

#[test]
fn service_regenerates_and_keeps_grid_on_error() {
    let mut service = DungeonService::new();
    let mut rng = RandomSource::from_seed(99);
    let bounds = Rect { min: coord(1, 1), max: coord(29, 29) };
    service
        .regenerate(bounds, coord(5, 5), coord(10, 10), 10, 100, &mut rng)
        .expect("valid configuration");
    assert!(!service.grid.rooms.is_empty());
    let rooms_before = service.grid.rooms.clone();
    let tiles_before = service.grid.tiles.clone();

    let r = service.regenerate(bounds, coord(5, 5), coord(10, 10), 10, 0, &mut rng);
    assert_eq!(r, Err(PlacementError::NonPositiveAttempts));
    assert_eq!(service.grid.rooms, rooms_before);
    assert_eq!(service.grid.tiles, tiles_before);
}

//! Tests of the dungeon generator and the room store: door symmetry across
//! explorations, door-set stability, enemy separation, and the origin room.

use dungeon::consts::{check_position_bounds, Door, Position};
use dungeon::errors::DungeonError;
use dungeon::controller::PlayerController;
use dungeon::game::Game;
use dungeon::minimap::Minimap;
use dungeon::room::{Room, RoomPosition};
use dungeon::store::RoomStore;

fn has_door(room: &Room, d: Door) -> bool {
    room.doors.contains(&d)
}

fn random_walk(game: &mut Game, steps: usize) {
    for _ in 0..steps {
        match rand::random::<u8>() % 4 {
            0 => PlayerController::move_up(game),
            1 => PlayerController::move_right(game),
            2 => PlayerController::move_down(game),
            _ => PlayerController::move_left(game),
        }
        // Never leave a combat prompt pending: walking on abandons it.
    }
}

/// Door symmetry over every adjacent pair of a randomized exploration run.
#[test]
fn doors_are_symmetric_across_exploration() {
    let mut game = Game::start();
    let mut walks = 0usize;
    while game.rooms.coordinates().len() < 50 && walks < 200 {
        random_walk(&mut game, 100);
        walks += 1;
    }
    game.save_current_room();
    let coords = game.rooms.coordinates();
    assert!(coords.len() >= 2, "the walk explored nothing");
    for c in &coords {
        let room = game.rooms.get(*c).unwrap();
        let checks: [(Door, i8, i8, Door); 4] = [
            (Door::TOP, 0, 1, Door::BOTTOM),
            (Door::BOTTOM, 0, -1, Door::TOP),
            (Door::RIGHT, 1, 0, Door::LEFT),
            (Door::LEFT, -1, 0, Door::RIGHT),
        ];
        for (d, dx, dy, opposite) in checks {
            let nx = c.x.checked_add(dx);
            let ny = c.y.checked_add(dy);
            if let (Some(nx), Some(ny)) = (nx, ny) {
                if let Some(neighbor) = game.rooms.get(RoomPosition { x: nx, y: ny }) {
                    assert_eq!(
                        has_door(room, d),
                        has_door(neighbor, opposite),
                        "asymmetric door between ({},{}) and ({},{})",
                        c.x,
                        c.y,
                        nx,
                        ny
                    );
                }
            }
        }
    }
}

/// A room's door set never changes once generated: repeated `get` calls, and
/// `get` calls after further exploration, return the same doors.
#[test]
fn door_sets_are_stable() {
    let mut game = Game::start();
    random_walk(&mut game, 300);
    game.save_current_room();
    let coords = game.rooms.coordinates();
    let mut snapshot: Vec<(RoomPosition, Vec<Door>)> = Vec::new();
    for c in &coords {
        let first = game.rooms.get(*c).unwrap().doors.clone();
        let second = game.rooms.get(*c).unwrap().doors.clone();
        assert_eq!(first, second, "two gets disagreed at ({},{})", c.x, c.y);
        snapshot.push((*c, first));
    }
    random_walk(&mut game, 300);
    game.save_current_room();
    for (c, doors) in &snapshot {
        let now = game.rooms.get(*c).unwrap();
        assert_eq!(
            &now.doors, doors,
            "door set changed at ({},{}) after more exploration",
            c.x, c.y
        );
    }
}

/// No generated room holds two enemies on one tile, across at least a
/// thousand generated rooms with two or more enemies.
#[test]
fn enemies_never_share_a_tile() {
    let mut crowded = 0usize;
    let mut attempts = 0usize;
    while crowded < 1000 && attempts < 100_000 {
        attempts += 1;
        let store = RoomStore::new();
        let room = Room::create_next_room(
            RoomPosition { x: 3, y: -2 },
            Door::LEFT,
            &store,
        );
        if room.enemies.len() >= 2 {
            crowded += 1;
        }
        for i in 0..room.enemies.len() {
            for j in (i + 1)..room.enemies.len() {
                assert_ne!(
                    room.enemies[i].position, room.enemies[j].position,
                    "two enemies on one tile"
                );
            }
        }
    }
    assert!(crowded >= 1000, "too few rooms with two or more enemies");
}

/// Enemy levels follow the distance curve: distance 5 from the origin gives
/// level 5 enemies.
#[test]
fn enemy_levels_follow_distance() {
    for _ in 0..200 {
        let store = RoomStore::new();
        let room = Room::create_next_room(
            RoomPosition { x: 3, y: -2 },
            Door::LEFT,
            &store,
        );
        for e in &room.enemies {
            assert_eq!(e.level, 5);
        }
    }
}

/// The entry door is always present, and a neighbor's wall is always
/// honored.
#[test]
fn generated_room_honors_neighbors() {
    for _ in 0..200 {
        let mut store = RoomStore::new();
        // A neighbor above (0, 0) with no BOTTOM door: TOP must stay a wall.
        // A neighbor to the right with a LEFT door: RIGHT must open.
        store.insert_or_replace(
            RoomPosition { x: 0, y: 1 },
            Room::new(RoomPosition { x: 0, y: 1 }, vec![Door::TOP]),
        );
        store.insert_or_replace(
            RoomPosition { x: 1, y: 0 },
            Room::new(RoomPosition { x: 1, y: 0 }, vec![Door::LEFT]),
        );
        let room = Room::create_next_room(RoomPosition { x: 0, y: 0 }, Door::BOTTOM, &store);
        assert!(has_door(&room, Door::BOTTOM), "entry door missing");
        assert!(!has_door(&room, Door::TOP), "banned direction opened");
        assert!(has_door(&room, Door::RIGHT), "forced direction missing");
    }
}

/// The origin room always has all four doors.
#[test]
fn origin_room_has_all_four_doors() {
    let game = Game::start();
    for d in [Door::TOP, Door::RIGHT, Door::BOTTOM, Door::LEFT] {
        assert!(has_door(&game.current_room, d));
    }
    let stored = game.rooms.get(RoomPosition { x: 0, y: 0 }).unwrap();
    for d in [Door::TOP, Door::RIGHT, Door::BOTTOM, Door::LEFT] {
        assert!(has_door(stored, d));
    }
    assert!(game.current_room.enemies.is_empty());
}

/// The store is a plain mapping: what is inserted is what comes back, and
/// `contains` agrees with `get`.
#[test]
fn store_roundtrip() {
    let mut store = RoomStore::new();
    assert!(store.is_empty());
    let pos = RoomPosition { x: -7, y: 12 };
    assert!(!store.contains(pos));
    assert!(store.get(pos).is_none());
    store.insert_or_replace(pos, Room::new(pos, vec![Door::LEFT, Door::TOP]));
    assert!(store.contains(pos));
    assert_eq!(store.get(pos).unwrap().doors, vec![Door::LEFT, Door::TOP]);
    store.insert_or_replace(pos, Room::new(pos, vec![Door::RIGHT]));
    assert_eq!(store.get(pos).unwrap().doors, vec![Door::RIGHT]);
    assert_eq!(store.coordinates().len(), 1);
    assert!(!store.is_empty());
}

/// The symmetry audit accepts every explored world and rejects a store with
/// a one-sided door.
#[test]
fn symmetry_audit_detects_violations() {
    let mut game = Game::start();
    random_walk(&mut game, 300);
    game.save_current_room();
    assert!(game.rooms.check_door_symmetry().is_ok());

    let mut broken = RoomStore::new();
    let a = RoomPosition { x: 0, y: 0 };
    let b = RoomPosition { x: 1, y: 0 };
    broken.insert_or_replace(a, Room::new(a, vec![Door::RIGHT]));
    broken.insert_or_replace(b, Room::new(b, vec![Door::RIGHT]));
    assert_eq!(
        broken.check_door_symmetry().unwrap_err(),
        DungeonError::InvariantViolation
    );
}

/// The defensive position check accepts exactly the playable interior.
#[test]
fn position_bounds_check() {
    assert_eq!(
        check_position_bounds(Position { x: 2, y: 2 }),
        Ok(Position { x: 2, y: 2 })
    );
    assert_eq!(
        check_position_bounds(Position { x: 11, y: 6 }),
        Ok(Position { x: 11, y: 6 })
    );
    for p in [
        Position { x: 1, y: 3 },
        Position { x: 12, y: 3 },
        Position { x: 5, y: 1 },
        Position { x: 5, y: 7 },
    ] {
        assert_eq!(
            check_position_bounds(p),
            Err(DungeonError::PositionOutOfBounds)
        );
    }
}

/// The minimap bounding box is tight around the explored world.
#[test]
fn map_bounds_track_exploration() {
    let game = Game::start();
    assert_eq!(Minimap::get_map_bounds(&game.rooms), (0, 0, 0, 0));
    let mut store = RoomStore::new();
    for (x, y) in [(0i8, 0i8), (-3, 2), (5, -1)] {
        let pos = RoomPosition { x, y };
        store.insert_or_replace(pos, Room::new(pos, vec![]));
    }
    assert_eq!(Minimap::get_map_bounds(&store), (-3, 5, -1, 2));
}

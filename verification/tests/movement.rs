//! Tests of the navigation state machine: free steps, wall bumps, room
//! transitions, and combat prompts.

use dungeon::consts::{Door, Position};
use dungeon::controller::PlayerController;
use dungeon::enemy::Enemy;
use dungeon::game::Game;
use dungeon::room::RoomPosition;

#[test]
fn free_step_moves_one_tile() {
    let mut game = Game::start();
    assert_eq!(game.player.position, Position { x: 5, y: 3 });
    PlayerController::move_right(&mut game);
    assert_eq!(game.player.position, Position { x: 6, y: 3 });
    PlayerController::move_down(&mut game);
    assert_eq!(game.player.position, Position { x: 6, y: 4 });
    PlayerController::move_left(&mut game);
    assert_eq!(game.player.position, Position { x: 5, y: 4 });
    PlayerController::move_up(&mut game);
    assert_eq!(game.player.position, Position { x: 5, y: 3 });
    assert_eq!(game.rooms.coordinates().len(), 1);
}

#[test]
fn wall_bump_changes_nothing() {
    let mut game = Game::start();
    // Take away the top door of the current room: pushing against the top
    // wall from the boundary row must then move nobody.
    game.current_room.doors = vec![Door::LEFT, Door::RIGHT, Door::BOTTOM];
    game.player.position = Position { x: 5, y: 2 };
    PlayerController::move_up(&mut game);
    assert_eq!(game.player.position, Position { x: 5, y: 2 });
    assert_eq!(game.rooms.coordinates().len(), 1);
}

/// Crossing a door boundary with no neighbor room generates exactly one new
/// room and lands the player on the entry tile of the opposite wall.
#[test]
fn first_crossing_generates_exactly_one_room() {
    let mut game = Game::start();
    PlayerController::move_up(&mut game);
    assert_eq!(game.player.position, Position { x: 5, y: 2 });
    assert_eq!(game.rooms.coordinates().len(), 1);
    PlayerController::move_up(&mut game);
    // One room was generated, above the origin; the player entered from its
    // bottom side.
    assert_eq!(game.rooms.coordinates().len(), 2);
    assert_eq!(game.current_room.grid_position, RoomPosition { x: 0, y: 1 });
    assert_eq!(game.player.position, Position { x: 5, y: 6 });
    assert!(game.rooms.contains(RoomPosition { x: 0, y: 1 }));
    assert!(game.current_room.doors.contains(&Door::BOTTOM));
}

/// Entering each of the four directions lands on the configured entry point
/// opposite the exit side.
#[test]
fn entry_points_match_exit_sides() {
    let cases: [(fn(&mut Game), Position, Position, RoomPosition); 4] = [
        (
            PlayerController::move_up,
            Position { x: 5, y: 2 },
            Position { x: 5, y: 6 },
            RoomPosition { x: 0, y: 1 },
        ),
        (
            PlayerController::move_down,
            Position { x: 5, y: 6 },
            Position { x: 5, y: 2 },
            RoomPosition { x: 0, y: -1 },
        ),
        (
            PlayerController::move_right,
            Position { x: 11, y: 4 },
            Position { x: 2, y: 4 },
            RoomPosition { x: 1, y: 0 },
        ),
        (
            PlayerController::move_left,
            Position { x: 2, y: 4 },
            Position { x: 11, y: 4 },
            RoomPosition { x: -1, y: 0 },
        ),
    ];
    for (mv, from, landing, destination) in cases {
        let mut game = Game::start();
        game.player.position = from;
        mv(&mut game);
        assert_eq!(game.current_room.grid_position, destination);
        assert_eq!(game.player.position, landing);
        assert_eq!(game.rooms.coordinates().len(), 2);
    }
}

/// Revisiting a room brings back the very same room, not a regenerated one.
#[test]
fn revisiting_returns_the_same_room() {
    let mut game = Game::start();
    game.player.position = Position { x: 5, y: 2 };
    PlayerController::move_up(&mut game);
    let doors_first = game.current_room.doors.clone();
    // Walk back down through the entry door and up again.
    game.player.position = Position { x: 5, y: 6 };
    PlayerController::move_down(&mut game);
    assert_eq!(game.current_room.grid_position, RoomPosition { x: 0, y: 0 });
    game.player.position = Position { x: 5, y: 2 };
    PlayerController::move_up(&mut game);
    assert_eq!(game.current_room.grid_position, RoomPosition { x: 0, y: 1 });
    assert_eq!(game.current_room.doors, doors_first);
    assert_eq!(game.rooms.coordinates().len(), 2);
}

/// Stepping toward an enemy opens a combat prompt and moves nobody.
#[test]
fn stepping_into_enemy_opens_combat_prompt() {
    let mut game = Game::start();
    let enemy = Enemy { level: 3, position: Position { x: 6, y: 3 } };
    game.current_room.enemies.push(enemy);
    PlayerController::move_right(&mut game);
    assert_eq!(game.player.position, Position { x: 5, y: 3 });
    assert_eq!(game.fighting_enemy, Some(enemy));
    assert!(game.player.fighting);
    // Walking another way abandons the prompt.
    PlayerController::move_down(&mut game);
    assert_eq!(game.player.position, Position { x: 5, y: 4 });
    assert_eq!(game.fighting_enemy, None);
    assert!(!game.player.fighting);
}

/// Departing a room saves it: an enemy list changed in the current room is
/// still changed when the room is revisited.
#[test]
fn departure_saves_the_room() {
    let mut game = Game::start();
    let enemy = Enemy { level: 2, position: Position { x: 8, y: 4 } };
    game.current_room.enemies.push(enemy);
    game.player.position = Position { x: 5, y: 2 };
    PlayerController::move_up(&mut game);
    let stored = game.rooms.get(RoomPosition { x: 0, y: 0 }).unwrap();
    assert_eq!(stored.enemies, vec![enemy]);
}

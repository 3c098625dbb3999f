//! Tests of the combat resolver: win payout, loss damage, and the pending
//! encounter's life cycle.

use dungeon::consts::Position;
use dungeon::enemy::Enemy;
use dungeon::game::Game;
use dungeon::player::Player;

fn game_with_encounter(player_level: u16, enemy_level: u16) -> Game {
    let mut game = Game::start();
    game.player.level = player_level;
    let enemy = Enemy { level: enemy_level, position: Position { x: 6, y: 3 } };
    game.current_room.enemies.push(enemy);
    game.fighting_enemy = Some(enemy);
    game.player.fighting = true;
    game
}

/// An even loss deals exactly one damage.
#[test]
fn even_loss_deals_one_damage() {
    let mut game = game_with_encounter(5, 5);
    game.apply_fight_outcome(false);
    assert_eq!(game.player.health, 99);
    assert_eq!(game.player.level, 5);
    assert_eq!(game.player.position, Position { x: 5, y: 3 });
    assert_eq!(game.fighting_enemy, None);
    assert!(!game.player.fighting);
    assert_eq!(game.current_room.enemies.len(), 1);
}

/// A loss four levels down deals exactly five damage.
#[test]
fn outleveled_loss_deals_gap_plus_one() {
    let mut game = game_with_encounter(3, 7);
    game.apply_fight_outcome(false);
    assert_eq!(game.player.health, 95);
}

/// Health clamps at zero instead of wrapping.
#[test]
fn loss_damage_clamps_at_zero() {
    let mut game = game_with_encounter(1, 500);
    game.apply_fight_outcome(false);
    assert_eq!(game.player.health, 0);
}

/// Winning pays the enemy's level, removes exactly that enemy, and puts the
/// player on its tile.
#[test]
fn win_pays_level_and_removes_enemy() {
    let mut game = game_with_encounter(2, 7);
    game.apply_fight_outcome(true);
    assert_eq!(game.player.level, 9);
    assert_eq!(game.player.health, 100);
    assert_eq!(game.player.position, Position { x: 6, y: 3 });
    assert_eq!(game.current_room.enemies.len(), 0);
    assert_eq!(game.fighting_enemy, None);
    assert!(!game.player.fighting);
}

/// Winning removes only the fought enemy; the others stay.
#[test]
fn win_removes_only_the_fought_enemy() {
    let mut game = game_with_encounter(2, 7);
    let bystander = Enemy { level: 1, position: Position { x: 9, y: 5 } };
    game.current_room.enemies.push(bystander);
    game.apply_fight_outcome(true);
    assert_eq!(game.current_room.enemies, vec![bystander]);
}

/// A fight against a far stronger enemy is a sure loss: the win probability
/// is exactly zero.
#[test]
fn hopeless_fight_always_loses() {
    for _ in 0..50 {
        let mut game = game_with_encounter(1, 40);
        game.fight();
        assert_eq!(game.player.level, 1);
        assert_eq!(game.player.health, 60);
        assert_eq!(game.current_room.enemies.len(), 1);
        assert_eq!(game.fighting_enemy, None);
    }
}

/// A fight resolves to one of the two stated outcomes and nothing else.
#[test]
fn fight_resolves_to_win_or_loss() {
    for _ in 0..200 {
        let mut game = game_with_encounter(5, 5);
        game.fight();
        assert_eq!(game.fighting_enemy, None);
        assert!(!game.player.fighting);
        let won = game.player.level == 10;
        let lost = game.player.health == 99;
        assert!(won ^ lost, "neither a clean win nor a clean loss");
        if won {
            assert_eq!(game.current_room.enemies.len(), 0);
            assert_eq!(game.player.position, Position { x: 6, y: 3 });
        } else {
            assert_eq!(game.current_room.enemies.len(), 1);
            assert_eq!(game.player.position, Position { x: 5, y: 3 });
        }
    }
}

/// With no pending encounter, fighting changes nothing.
#[test]
fn fight_without_encounter_is_a_no_op() {
    let mut game = Game::start();
    game.fight();
    assert_eq!(game.player.health, 100);
    assert_eq!(game.player.level, 1);
    assert_eq!(game.player.position, Position { x: 5, y: 3 });
}

/// The player type starts as specified and damages saturate.
#[test]
fn player_new_and_decrease_health() {
    let mut p = Player::new(Position { x: 4, y: 4 });
    assert_eq!(p.level, 1);
    assert_eq!(p.health, 100);
    assert!(!p.fighting);
    p.decrease_health(30);
    assert_eq!(p.health, 70);
    p.decrease_health(250);
    assert_eq!(p.health, 0);
    p.set_fighting(true);
    assert!(p.fighting);
}

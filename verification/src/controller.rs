//! The navigation state machine: directional move requests against the
//! current room's doors, interior bounds, and enemies.

use crate::consts::{
    in_interior, Door, Position, ROOM_MAX_X, ROOM_MAX_Y, ROOM_MIN_X, ROOM_MIN_Y,
};
use crate::enemy::Enemy;
use crate::game::Game;
use crate::player::Player;
use crate::room::{in_grid_range, neighbor_room_position, spec_neighbor};
use crate::store::doors_preserved;
use vstd::prelude::*;

verus! {

/// Whether the player stands on the boundary tile strip from which the door
/// in direction `d` can be taken: the wall row or column, within the door's
/// span (columns 4 to 9 for the top and bottom walls, rows 3 to 5 for the
/// left and right walls).
pub open spec fn at_door_boundary(p: Position, d: Door) -> bool {
    match d {
        Door::TOP => p.y == ROOM_MIN_Y && 4 <= p.x <= 9,
        Door::BOTTOM => p.y == ROOM_MAX_Y && 4 <= p.x <= 9,
        Door::RIGHT => p.x == ROOM_MAX_X && 3 <= p.y <= 5,
        Door::LEFT => p.x == ROOM_MIN_X && 3 <= p.y <= 5,
    }
}

/// Whether one more step in direction `d` stays inside the room.
pub open spec fn can_step(p: Position, d: Door) -> bool {
    match d {
        Door::TOP => p.y > ROOM_MIN_Y,
        Door::BOTTOM => p.y < ROOM_MAX_Y,
        Door::RIGHT => p.x < ROOM_MAX_X,
        Door::LEFT => p.x > ROOM_MIN_X,
    }
}

/// The tile one step in direction `d` from `p`.
pub open spec fn step_target(p: Position, d: Door) -> Position {
    match d {
        Door::TOP => Position { x: p.x, y: (p.y - 1) as u8 },
        Door::BOTTOM => Position { x: p.x, y: (p.y + 1) as u8 },
        Door::RIGHT => Position { x: (p.x + 1) as u8, y: p.y },
        Door::LEFT => Position { x: (p.x - 1) as u8, y: p.y },
    }
}

/// Where the player reappears in the next room after leaving through the
/// wall in direction `d`: the same off-axis coordinate, on the opposite
/// wall's interior strip.
pub open spec fn entry_position(p: Position, d: Door) -> Position {
    match d {
        Door::TOP => Position { x: p.x, y: ROOM_MAX_Y },
        Door::BOTTOM => Position { x: p.x, y: ROOM_MIN_Y },
        Door::RIGHT => Position { x: ROOM_MIN_X, y: p.y },
        Door::LEFT => Position { x: ROOM_MAX_X, y: p.y },
    }
}

/// The full effect of one directional move request on the session.
///
/// Exactly one of three things happens. At a door boundary whose door exists
/// (and whose neighbor coordinate fits the grid) the player crosses rooms:
/// the departing room is saved, the destination is fetched — or generated,
/// adding exactly its coordinate to the store — and the player reappears at
/// the entry tile; no stored door set changes. Else, one step toward an
/// enemy opens a combat prompt and moves nobody. Else, one free step moves
/// the player one tile, and a move against a wall changes nothing. In every
/// case a previously open combat prompt is abandoned.
pub open spec fn spec_move(pre: Game, d: Door, post: Game) -> bool {
    let p = pre.player.position;
    let cur = pre.current_room@.coord;
    let nb = spec_neighbor(cur, d);
    let t = step_target(p, d);
    if at_door_boundary(p, d) && pre.current_room@.has_door(d) && in_grid_range(nb) {
        &&& doors_preserved(pre.rooms@, post.rooms@)
        &&& post.rooms@.dom() == pre.rooms@.dom().insert(nb)
        &&& post.current_room@.coord == nb
        &&& post.current_room@.has_door(d.spec_opposite())
        &&& post.player.position == entry_position(p, d)
        &&& post.player.level == pre.player.level
        &&& post.player.health == pre.player.health
        &&& post.fighting_enemy is None
        &&& post.player.fighting == false
        &&& post.rooms@[cur] == pre.current_room@
        &&& (pre.rooms@.dom().contains(nb) ==> post.current_room@ == pre.rooms@[nb])
    } else if can_step(p, d) {
        if exists|i: int|
            0 <= i < pre.current_room@.enemies.len() && (#[trigger] pre.current_room@.enemies[i]).position
                == t {
            &&& post.fighting_enemy is Some
            &&& post.fighting_enemy->Some_0.position == t
            &&& pre.current_room@.enemies.contains(post.fighting_enemy->Some_0)
            &&& post.player == (Player { fighting: true, ..pre.player })
            &&& post.rooms == pre.rooms
            &&& post.current_room == pre.current_room
        } else {
            &&& post.player == (Player { fighting: false, position: t, ..pre.player })
            &&& post.fighting_enemy is None
            &&& post.rooms == pre.rooms
            &&& post.current_room == pre.current_room
        }
    } else {
        post == (Game {
            player: Player { fighting: false, ..pre.player },
            fighting_enemy: None::<Enemy>,
            ..pre
        })
    }
}

/// Interprets directional move requests for the player.
pub struct PlayerController {}

impl PlayerController {
    /// One move request in direction `d`; see [`spec_move`].
    fn move_in_direction(game: &mut Game, d: Door)
        requires
            old(game).wf(),
        ensures
            final(game).wf(),
            spec_move(*old(game), d, *final(game)),
    {
        let p = game.player.position;
        let boundary_ok = match d {
            Door::TOP => p.y == ROOM_MIN_Y && 4 <= p.x && p.x <= 9,
            Door::BOTTOM => p.y == ROOM_MAX_Y && 4 <= p.x && p.x <= 9,
            Door::RIGHT => p.x == ROOM_MAX_X && 3 <= p.y && p.y <= 5,
            Door::LEFT => p.x == ROOM_MIN_X && 3 <= p.y && p.y <= 5,
        };
        if boundary_ok && game.current_room.has_door(d) {
            match neighbor_room_position(game.current_room.grid_position, d) {
                Some(nb) => {
                    game.fighting_enemy = None;
                    game.player.fighting = false;
                    let entry_door = d.opposite();
                    let landing = match d {
                        Door::TOP => Position { x: p.x, y: ROOM_MAX_Y },
                        Door::BOTTOM => Position { x: p.x, y: ROOM_MIN_Y },
                        Door::RIGHT => Position { x: ROOM_MIN_X, y: p.y },
                        Door::LEFT => Position { x: ROOM_MAX_X, y: p.y },
                    };
                    proof {
                        crate::room::lemma_neighbor_inverse(
                            game.current_room@.coord,
                            d,
                        );
                    }
                    game.enter_new_room(nb, entry_door, landing);
                },
                None => {
                    // The neighbor coordinate falls off the grid: the door
                    // leads nowhere, the move is a wall bump.
                    game.fighting_enemy = None;
                    game.player.fighting = false;
                },
            }
        } else {
            let can = match d {
                Door::TOP => p.y > ROOM_MIN_Y,
                Door::BOTTOM => p.y < ROOM_MAX_Y,
                Door::RIGHT => p.x < ROOM_MAX_X,
                Door::LEFT => p.x > ROOM_MIN_X,
            };
            if can {
                let target = match d {
                    Door::TOP => Position { x: p.x, y: p.y - 1 },
                    Door::BOTTOM => Position { x: p.x, y: p.y + 1 },
                    Door::RIGHT => Position { x: p.x + 1, y: p.y },
                    Door::LEFT => Position { x: p.x - 1, y: p.y },
                };
                match game.current_room.get_enemy_at_position(target) {
                    Some(enemy) => {
                        game.fighting_enemy = Some(enemy);
                        game.player.fighting = true;
                    },
                    None => {
                        game.fighting_enemy = None;
                        game.player.fighting = false;
                        game.move_player_direct(target);
                    },
                }
            } else {
                game.fighting_enemy = None;
                game.player.fighting = false;
            }
        }
    }

    /// A move request one tile upward (toward the top wall).
    pub fn move_up(game: &mut Game)
        requires
            old(game).wf(),
        ensures
            final(game).wf(),
            spec_move(*old(game), Door::TOP, *final(game)),
    {
        Self::move_in_direction(game, Door::TOP);
    }

    /// A move request one tile to the right.
    pub fn move_right(game: &mut Game)
        requires
            old(game).wf(),
        ensures
            final(game).wf(),
            spec_move(*old(game), Door::RIGHT, *final(game)),
    {
        Self::move_in_direction(game, Door::RIGHT);
    }

    /// A move request one tile downward (toward the bottom wall).
    pub fn move_down(game: &mut Game)
        requires
            old(game).wf(),
        ensures
            final(game).wf(),
            spec_move(*old(game), Door::BOTTOM, *final(game)),
    {
        Self::move_in_direction(game, Door::BOTTOM);
    }

    /// A move request one tile to the left.
    pub fn move_left(game: &mut Game)
        requires
            old(game).wf(),
        ensures
            final(game).wf(),
            spec_move(*old(game), Door::LEFT, *final(game)),
    {
        Self::move_in_direction(game, Door::LEFT);
    }
}

} // verus!

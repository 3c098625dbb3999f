//! The game session: the room store, the current room, the player, and the
//! pending combat encounter, with the state machine that ties them together.

use crate::config::{win_probability_function, PROBABILITY_ONE};
use crate::consts::{in_interior, Door, Position, ROOM_MAX_X, ROOM_MAX_Y, ROOM_MIN_X, ROOM_MIN_Y};
use crate::enemy::Enemy;
use crate::player::Player;
use crate::rng::random_below;
use crate::room::{spec_neighbor, Room, RoomPosition};
use crate::store::{
    door_symmetric, doors_preserved, lemma_insert_fresh_preserves_symmetry,
    lemma_replace_same_doors_preserves_symmetry, neighbor_bans, rooms_wf, RoomStore,
};
use vstd::math::abs;
use vstd::prelude::*;

verus! {

/// One running game session.
pub struct Game {
    pub rooms: RoomStore,
    pub player: Player,
    pub current_room: Room,
    pub fighting_enemy: Option<Enemy>,
}

/// The origin coordinate, where every session starts.
pub open spec fn origin() -> (int, int) {
    (0int, 0int)
}

impl Game {
    /// The session-wide well-formedness invariant: the store is a proper
    /// map over a door-symmetric world of well-formed rooms, the origin room
    /// exists with all four doors, the current room is a faithful copy of
    /// its stored version up to enemy defeats not yet saved, the player
    /// stands on an interior tile, and a pending encounter names an enemy of
    /// the current room.
    pub open spec fn wf(self) -> bool {
        &&& self.rooms.wf()
        &&& door_symmetric(self.rooms@)
        &&& rooms_wf(self.rooms@)
        &&& self.rooms@.dom().contains(origin())
        &&& forall|d: Door| self.rooms@[origin()].has_door(d)
        &&& self.rooms@.dom().contains(self.current_room@.coord)
        &&& self.rooms@[self.current_room@.coord].doors == self.current_room@.doors
        &&& self.current_room@.enemies_wf()
        &&& in_interior(self.player.position)
        &&& match self.fighting_enemy {
            Some(e) => self.current_room@.enemies.contains(e),
            None => true,
        }
        &&& self.player.fighting == (self.fighting_enemy is Some)
    }

    /// A fresh session: the origin room with all four doors and no enemies,
    /// the player on its center tile at level 1 and full health.
    pub fn start() -> (g: Game)
        ensures
            g.wf(),
            g.rooms@.dom() == Set::<(int, int)>::empty().insert(origin()),
            g.current_room.grid_position == (RoomPosition { x: 0, y: 0 }),
            forall|d: Door| g.current_room@.has_door(d),
            g.current_room@.enemies.len() == 0,
            g.player.position == (Position { x: 5, y: 3 }),
            g.player.level == 1,
            g.player.health == 100,
            g.player.fighting == false,
            g.fighting_enemy is None,
    {
        let origin_pos = RoomPosition { x: 0, y: 0 };
        let doors: Vec<Door> = vec![Door::TOP, Door::RIGHT, Door::BOTTOM, Door::LEFT];
        proof {
            assert forall|d: Door| doors@.contains(d) by {
                match d {
                    Door::TOP => assert(doors@[0] == d),
                    Door::RIGHT => assert(doors@[1] == d),
                    Door::BOTTOM => assert(doors@[2] == d),
                    Door::LEFT => assert(doors@[3] == d),
                }
            }
        }
        let current_room = Room::new(origin_pos, doors);
        let mut rooms = RoomStore::new();
        rooms.insert_or_replace(origin_pos, current_room.duplicate());
        let g = Game {
            rooms,
            player: Player::new(Position { x: 5, y: 3 }),
            current_room,
            fighting_enemy: None,
        };
        proof {
            assert(g.rooms@.dom() =~= Set::<(int, int)>::empty().insert(origin()));
            assert forall|c: (int, int), d: Door|
                g.rooms@.dom().contains(c) && #[trigger] g.rooms@[c].has_door(d)
                    && g.rooms@.dom().contains(spec_neighbor(c, d)) implies g.rooms@[spec_neighbor(
                c,
                d,
            )].has_door(d.spec_opposite()) by {
                crate::room::lemma_neighbor_inverse(c, d);
            }
        }
        g
    }

    /// Writes the current room back into the store, so that enemy defeats
    /// in it persist when the player departs and later revisits. The door
    /// layout of the world does not change.
    pub fn save_current_room(&mut self)
        requires
            old(self).wf(),
        ensures
            final(self).wf(),
            final(self).rooms@.dom() == old(self).rooms@.dom(),
            doors_preserved(old(self).rooms@, final(self).rooms@),
            final(self).rooms@[old(self).current_room@.coord] == old(self).current_room@,
            forall|c: (int, int)|
                c != old(self).current_room@.coord && old(self).rooms@.dom().contains(c)
                    ==> final(self).rooms@[c] == old(self).rooms@[c],
            final(self).player == old(self).player,
            final(self).current_room == old(self).current_room,
            final(self).fighting_enemy == old(self).fighting_enemy,
    {
        let coord = self.current_room.grid_position;
        let copy = self.current_room.duplicate();
        proof {
            lemma_replace_same_doors_preserves_symmetry(
                self.rooms@,
                self.current_room@.coord,
                copy@,
            );
        }
        self.rooms.insert_or_replace(coord, copy);
        proof {
            assert(self.rooms@.dom() =~= old(self).rooms@.dom());
            assert(self.rooms@ =~= old(self).rooms@.insert(
                old(self).current_room@.coord,
                copy@,
            ));
            assert forall|d: Door| self.rooms@[origin()].has_door(d) by {
                assert(old(self).rooms@[origin()].has_door(d));
                assert(self.rooms@[origin()].doors == old(self).rooms@[origin()].doors);
            }
        }
    }

    /// Moves the player by one step inside the current room.
    pub fn move_player(&mut self, dx: i16, dy: i16)
        requires
            old(self).wf(),
            ROOM_MIN_X <= old(self).player.position.x + dx <= ROOM_MAX_X,
            ROOM_MIN_Y <= old(self).player.position.y + dy <= ROOM_MAX_Y,
        ensures
            final(self).wf(),
            final(self).player.position.x == old(self).player.position.x + dx,
            final(self).player.position.y == old(self).player.position.y + dy,
            final(self).player.level == old(self).player.level,
            final(self).player.health == old(self).player.health,
            final(self).player.fighting == old(self).player.fighting,
            final(self).rooms == old(self).rooms,
            final(self).current_room == old(self).current_room,
            final(self).fighting_enemy == old(self).fighting_enemy,
    {
        let x = ((self.player.position.x as i16) + dx) as u8;
        let y = ((self.player.position.y as i16) + dy) as u8;
        self.player.position = Position { x, y };
    }

    /// Moves the player straight to an interior tile of the current room.
    pub fn move_player_direct(&mut self, position: Position)
        requires
            old(self).wf(),
            in_interior(position),
        ensures
            final(self).wf(),
            final(self).player.position == position,
            final(self).player.level == old(self).player.level,
            final(self).player.health == old(self).player.health,
            final(self).player.fighting == old(self).player.fighting,
            final(self).rooms == old(self).rooms,
            final(self).current_room == old(self).current_room,
            final(self).fighting_enemy == old(self).fighting_enemy,
    {
        self.player.position = position;
    }

    /// Leaves the current room through `entry_door`'s wall and makes
    /// `new_position` the current room, generating it on first visit.
    ///
    /// `entry_door` is the door of the destination room that leads back to
    /// the room being left; the player reappears on `player_new_pos`. The
    /// departing room is saved first, so enemy defeats persist. At most one
    /// coordinate is added to the store — exactly one when the destination
    /// had never been generated — and no stored room's door set changes.
    pub fn enter_new_room(
        &mut self,
        new_position: RoomPosition,
        entry_door: Door,
        player_new_pos: Position,
    )
        requires
            old(self).wf(),
            in_interior(player_new_pos),
            spec_neighbor(new_position.coord(), entry_door) == old(self).current_room@.coord,
            old(self).current_room@.has_door(entry_door.spec_opposite()),
            old(self).fighting_enemy is None,
        ensures
            final(self).wf(),
            doors_preserved(old(self).rooms@, final(self).rooms@),
            final(self).rooms@.dom() == old(self).rooms@.dom().insert(new_position.coord()),
            final(self).player.position == player_new_pos,
            final(self).player.level == old(self).player.level,
            final(self).player.health == old(self).player.health,
            final(self).current_room.grid_position == new_position,
            final(self).current_room@.has_door(entry_door),
            final(self).fighting_enemy is None,
            final(self).rooms@[old(self).current_room@.coord] == old(self).current_room@,
            old(self).rooms@.dom().contains(new_position.coord()) ==> final(self).current_room@
                == old(self).rooms@[new_position.coord()],
            forall|c: (int, int)|
                c != new_position.coord() && c != old(self).current_room@.coord && old(
                    self,
                ).rooms@.dom().contains(c) ==> final(self).rooms@[c] == old(self).rooms@[c],
    {
        let ghost exit_coord = self.current_room@.coord;
        proof {
            crate::room::lemma_neighbor_inverse(new_position.coord(), entry_door);
        }
        self.save_current_room();
        let existing = self.rooms.contains(new_position);
        if existing {
            let found = self.rooms.get(new_position);
            match found {
                Some(room) => {
                    let copy = room.duplicate();
                    self.current_room = copy;
                },
                None => {
                    proof {
                        assert(false);
                    }
                },
            }
            proof {
                // The room on the far side of a door we hold is forced, by
                // symmetry, to hold the matching door.
                assert(self.rooms@[exit_coord].has_door(entry_door.spec_opposite()));
                assert(spec_neighbor(exit_coord, entry_door.spec_opposite())
                    == new_position.coord());
                assert(entry_door.spec_opposite().spec_opposite() == entry_door);
                assert(self.rooms@[new_position.coord()].has_door(entry_door));
                assert(self.current_room@.has_door(entry_door));
                assert(self.rooms@.dom().insert(new_position.coord()) =~= self.rooms@.dom());
            }
        } else {
            proof {
                assert(!neighbor_bans(self.rooms@, new_position.coord(), entry_door)) by {
                    assert(self.rooms@[exit_coord].has_door(entry_door.spec_opposite()));
                }
            }
            let new_room = Room::create_next_room(new_position, entry_door, &self.rooms);
            proof {
                lemma_insert_fresh_preserves_symmetry(
                    self.rooms@,
                    new_position.coord(),
                    new_room@,
                );
                assert(crate::room::forced_door(
                    self.rooms@,
                    new_position.coord(),
                    entry_door,
                    entry_door,
                ));
            }
            let copy = new_room.duplicate();
            self.rooms.insert_or_replace(new_position, copy);
            self.current_room = new_room;
        }
        self.player.position = player_new_pos;
    }
}

/// The damage a lost fight deals: the level gap plus one, so even an evenly
/// matched loss always costs at least one point of health.
pub open spec fn spec_loss_damage(player_level: int, enemy_level: int) -> int {
    abs(player_level - enemy_level) + 1int
}

/// How one resolved fight transforms the session. On a win the player gains
/// the enemy's level (saturating at the level type's maximum), steps onto
/// the enemy's tile, and the enemy disappears from the room; on a loss the
/// player stays put and loses health equal to the level gap plus one,
/// clamped at zero. Either way the encounter is over.
pub open spec fn spec_fight_outcome(pre: Game, win: bool, post: Game) -> bool {
    let e = pre.fighting_enemy->Some_0;
    &&& post.rooms == pre.rooms
    &&& post.fighting_enemy is None
    &&& post.player.fighting == false
    &&& if win {
        &&& post.player.level == if pre.player.level + e.level <= u16::MAX {
            pre.player.level + e.level
        } else {
            u16::MAX as int
        }
        &&& post.player.health == pre.player.health
        &&& post.player.position == e.position
        &&& exists|i: int|
            0 <= i < pre.current_room@.enemies.len() && pre.current_room@.enemies[i] == e
                && post.current_room@.enemies == pre.current_room@.enemies.remove(i)
        &&& post.current_room@.doors == pre.current_room@.doors
        &&& post.current_room.grid_position == pre.current_room.grid_position
    } else {
        &&& post.player.level == pre.player.level
        &&& post.player.position == pre.player.position
        &&& post.player.health == if pre.player.health >= spec_loss_damage(
            pre.player.level as int,
            e.level as int,
        ) {
            pre.player.health - spec_loss_damage(pre.player.level as int, e.level as int)
        } else {
            0
        }
        &&& post.current_room == pre.current_room
    }
}

impl Game {
    /// Applies the outcome of the pending fight: the state change for a win
    /// and for a loss, exactly as [`spec_fight_outcome`] states it.
    #[verifier::loop_isolation(false)]
    pub fn apply_fight_outcome(&mut self, win: bool)
        requires
            old(self).wf(),
            old(self).fighting_enemy is Some,
        ensures
            final(self).wf(),
            spec_fight_outcome(*old(self), win, *final(self)),
    {
        let e = match self.fighting_enemy {
            Some(e) => e,
            None => {
                proof {
                    assert(false);
                }
                Enemy { level: 0, position: Position { x: 2, y: 2 } }
            },
        };
        self.fighting_enemy = None;
        self.player.fighting = false;
        if win {
            if self.player.level <= u16::MAX - e.level {
                self.player.level = self.player.level + e.level;
            } else {
                self.player.level = u16::MAX;
            }
            let ghost enemies0 = self.current_room@.enemies;
            let ghost player1 = self.player;
            let n = self.current_room.enemies.len();
            let mut i: usize = 0;
            while i < n
                invariant
                    0 <= i <= n,
                    n == self.current_room@.enemies.len(),
                    self.rooms == old(self).rooms,
                    self.player == player1,
                    self.fighting_enemy is None,
                    self.current_room.grid_position == old(self).current_room.grid_position,
                    self.current_room@.doors == old(self).current_room@.doors,
                    self.current_room@.enemies == enemies0,
                    exists|k: int| i <= k < enemies0.len() && enemies0[k] == e,
                decreases n - i,
            {
                if self.current_room.enemies[i] == e {
                    self.current_room.enemies.remove(i);
                    proof {
                        assert(self.current_room@.enemies == enemies0.remove(i as int));
                        assert forall|s: int, t: int|
                            0 <= s < t < self.current_room@.enemies.len() implies (
                            #[trigger] self.current_room@.enemies[s]).position != (
                            #[trigger] self.current_room@.enemies[t]).position by {
                            let s0 = if s < i as int {
                                s
                            } else {
                                s + 1
                            };
                            let t0 = if t < i as int {
                                t
                            } else {
                                t + 1
                            };
                            assert(enemies0[s0].position != enemies0[t0].position);
                        }
                        assert forall|s: int|
                            0 <= s < self.current_room@.enemies.len() implies in_interior(
                            (#[trigger] self.current_room@.enemies[s]).position,
                        ) by {
                            let s0 = if s < i as int {
                                s
                            } else {
                                s + 1
                            };
                            assert(in_interior(enemies0[s0].position));
                        }
                        assert(enemies0.contains(e));
                        let k = choose|k: int| 0 <= k < enemies0.len() && enemies0[k] == e;
                        assert(in_interior(e.position));
                    }
                    self.player.position = e.position;
                    return ;
                }
                i = i + 1;
            }
            proof {
                assert(false);
            }
        } else {
            let p = self.player.level;
            let l = e.level;
            let gap: u32 = if p >= l {
                (p - l) as u32
            } else {
                (l - p) as u32
            };
            let dmg32: u32 = gap + 1;
            let dmg: u16 = if dmg32 > 0xFFFF {
                0xFFFF
            } else {
                dmg32 as u16
            };
            self.player.decrease_health(dmg);
        }
    }

    /// Resolves the pending fight, if one is pending: a random draw decides
    /// win or loss with probability [`crate::config::spec_win_probability`] of a win, and
    /// the outcome is applied. Whichever way the draw goes, the session ends
    /// in a state that [`spec_fight_outcome`] allows; with no pending fight
    /// nothing changes.
    pub fn fight(&mut self)
        requires
            old(self).wf(),
        ensures
            final(self).wf(),
            old(self).fighting_enemy is None ==> *final(self) == *old(self),
            old(self).fighting_enemy is Some ==> exists|win: bool|
                spec_fight_outcome(*old(self), win, *final(self)),
    {
        let pending = match self.fighting_enemy {
            Some(e) => Some(e),
            None => None,
        };
        match pending {
            None => {},
            Some(enemy) => {
                let probability = win_probability_function(self.player.level, enemy.level);
                let draw = random_below(PROBABILITY_ONE);
                let win = draw < probability;
                self.apply_fight_outcome(win);
                proof {
                    assert(spec_fight_outcome(*old(self), win, *self));
                }
            },
        }
    }
}

} // verus!

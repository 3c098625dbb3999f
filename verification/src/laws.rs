//! The structural laws of a game session, stated and proved once over the
//! session invariant and the transition contracts.

use crate::consts::Door;
use crate::controller::{at_door_boundary, entry_position, spec_move};
use crate::game::{origin, spec_fight_outcome, Game};
use crate::room::{in_grid_range, lemma_neighbor_inverse, spec_neighbor};
use crate::store::doors_preserved;
use vstd::prelude::*;

verus! {

/// Door symmetry: for any two adjacent generated rooms, the one has a door
/// toward the other exactly when the other has the matching door back.
pub proof fn lemma_door_symmetry(g: Game, c: (int, int), d: Door)
    requires
        g.wf(),
        g.rooms@.dom().contains(c),
        g.rooms@.dom().contains(spec_neighbor(c, d)),
    ensures
        g.rooms@[c].has_door(d) <==> g.rooms@[spec_neighbor(c, d)].has_door(d.spec_opposite()),
{
    let nb = spec_neighbor(c, d);
    lemma_neighbor_inverse(c, d);
    if g.rooms@[nb].has_door(d.spec_opposite()) {
        assert(spec_neighbor(nb, d.spec_opposite()) == c);
        assert(d.spec_opposite().spec_opposite() == d);
        assert(g.rooms@[c].has_door(d));
    }
}

/// Door stability: no move request ever changes the door set of a room that
/// was already generated, nor drops a room from the store.
pub proof fn lemma_move_preserves_doors(pre: Game, d: Door, post: Game)
    requires
        pre.wf(),
        spec_move(pre, d, post),
    ensures
        doors_preserved(pre.rooms@, post.rooms@),
{
}

/// Door stability through combat: resolving a fight never touches the room
/// store at all.
pub proof fn lemma_fight_preserves_doors(pre: Game, win: bool, post: Game)
    requires
        pre.wf(),
        pre.fighting_enemy is Some,
        spec_fight_outcome(pre, win, post),
    ensures
        post.rooms == pre.rooms,
        doors_preserved(pre.rooms@, post.rooms@),
{
}

/// Enemy separation: no generated room ever holds two enemies on the same
/// tile.
pub proof fn lemma_no_enemy_overlap(g: Game, c: (int, int), i: int, j: int)
    requires
        g.wf(),
        g.rooms@.dom().contains(c),
        0 <= i < j < g.rooms@[c].enemies.len(),
    ensures
        g.rooms@[c].enemies[i].position != g.rooms@[c].enemies[j].position,
{
}

/// The origin room always has all four doors, in every reachable session
/// state.
pub proof fn lemma_origin_all_doors(g: Game, d: Door)
    requires
        g.wf(),
    ensures
        g.rooms@.dom().contains(origin()),
        g.rooms@[origin()].has_door(d),
{
}

/// First visits generate exactly one room: a move through a door with no
/// room beyond it adds exactly the destination coordinate to the store and
/// puts the player on the entry tile opposite the wall that was crossed.
pub proof fn lemma_move_generates_one_room(pre: Game, d: Door, post: Game)
    requires
        pre.wf(),
        spec_move(pre, d, post),
        at_door_boundary(pre.player.position, d),
        pre.current_room@.has_door(d),
        in_grid_range(spec_neighbor(pre.current_room@.coord, d)),
        !pre.rooms@.dom().contains(spec_neighbor(pre.current_room@.coord, d)),
    ensures
        post.rooms@.dom() == pre.rooms@.dom().insert(spec_neighbor(pre.current_room@.coord, d)),
        !pre.rooms@.dom().contains(post.current_room@.coord),
        post.current_room@.coord == spec_neighbor(pre.current_room@.coord, d),
        post.player.position == entry_position(pre.player.position, d),
{
}

/// A won fight pays out exactly: the player's level rises by the defeated
/// enemy's level (when that fits the level type) and the room's enemy count
/// drops by exactly one.
pub proof fn lemma_win_outcome(pre: Game, post: Game)
    requires
        pre.wf(),
        pre.fighting_enemy is Some,
        spec_fight_outcome(pre, true, post),
        pre.player.level + pre.fighting_enemy->Some_0.level <= u16::MAX,
    ensures
        post.player.level == pre.player.level + pre.fighting_enemy->Some_0.level,
        post.current_room@.enemies.len() == pre.current_room@.enemies.len() - 1,
{
    let e = pre.fighting_enemy->Some_0;
    let i = choose|i: int|
        0 <= i < pre.current_room@.enemies.len() && pre.current_room@.enemies[i] == e
            && post.current_room@.enemies == pre.current_room@.enemies.remove(i);
    assert(post.current_room@.enemies.len() == pre.current_room@.enemies.len() - 1);
}

} // verus!

//! Rooms of the dungeon grid: coordinates, door sets, and enemies.

use crate::config::{door_distribution, enemy_distribution, enemy_level_function, spec_enemy_level};
use crate::consts::{in_interior, Door, Position};
use crate::enemy::Enemy;
use crate::helper::{generate_enemy_position, in_spawn_area, select_random_weighted};
use crate::rng::random_below;
use crate::store::{neighbor_bans, neighbor_forces, RoomStore};
use vstd::math::abs;
use vstd::prelude::*;

verus! {

/// The coordinate of a room in the dungeon grid. `y` grows upward: the room
/// above `(x, y)` is `(x, y + 1)`.
#[derive(Copy, Clone, PartialEq, Eq, Structural, Hash, Debug)]
pub struct RoomPosition {
    pub x: i8,
    pub y: i8,
}

impl RoomPosition {
    /// The coordinate as a pair of unbounded integers, the key type of the
    /// room store's mathematical model.
    pub open spec fn coord(self) -> (int, int) {
        (self.x as int, self.y as int)
    }
}

/// The grid coordinate adjacent to `c` in direction `d`.
pub open spec fn spec_neighbor(c: (int, int), d: Door) -> (int, int) {
    match d {
        Door::TOP => (c.0, c.1 + 1),
        Door::BOTTOM => (c.0, c.1 - 1),
        Door::RIGHT => (c.0 + 1, c.1),
        Door::LEFT => (c.0 - 1, c.1),
    }
}

/// Walking through a door and back returns to the same coordinate, and the
/// two coordinates are distinct; moreover `d` is the only direction that
/// leads from `c` to its `d`-neighbor.
pub proof fn lemma_neighbor_inverse(c: (int, int), d: Door)
    ensures
        spec_neighbor(c, d) != c,
        spec_neighbor(spec_neighbor(c, d), d.spec_opposite()) == c,
        forall|c2: (int, int), d2: Door|
            #![trigger spec_neighbor(c2, d2)]
            spec_neighbor(c2, d2) == c ==> c2 == spec_neighbor(c, d2.spec_opposite()),
{
}

/// Whether a coordinate pair fits the grid's coordinate type.
pub open spec fn in_grid_range(c: (int, int)) -> bool {
    &&& -128 <= c.0 <= 127
    &&& -128 <= c.1 <= 127
}

/// The Manhattan distance of a coordinate from the dungeon's origin.
pub open spec fn spec_manhattan(c: (int, int)) -> int {
    abs(c.0) + abs(c.1) as int
}

/// The grid coordinate next to `grid_position` in direction `d`, or `None`
/// when that coordinate does not fit the coordinate type (such a neighbor
/// can never have been generated).
pub fn neighbor_room_position(grid_position: RoomPosition, d: Door) -> (r: Option<RoomPosition>)
    ensures
        match r {
            Some(p) => p.coord() == spec_neighbor(grid_position.coord(), d),
            None => !in_grid_range(spec_neighbor(grid_position.coord(), d)),
        },
{
    match d {
        Door::TOP => {
            if grid_position.y == 127 {
                None
            } else {
                Some(RoomPosition { x: grid_position.x, y: grid_position.y + 1 })
            }
        },
        Door::BOTTOM => {
            if grid_position.y == -128 {
                None
            } else {
                Some(RoomPosition { x: grid_position.x, y: grid_position.y - 1 })
            }
        },
        Door::RIGHT => {
            if grid_position.x == 127 {
                None
            } else {
                Some(RoomPosition { x: grid_position.x + 1, y: grid_position.y })
            }
        },
        Door::LEFT => {
            if grid_position.x == -128 {
                None
            } else {
                Some(RoomPosition { x: grid_position.x - 1, y: grid_position.y })
            }
        },
    }
}

/// The mathematical model of a room: its coordinate, its door set, and its
/// enemies in order.
#[verifier::ext_equal]
pub ghost struct RoomView {
    pub coord: (int, int),
    pub doors: Seq<Door>,
    pub enemies: Seq<Enemy>,
}

impl RoomView {
    /// Whether the room has a door in direction `d`.
    pub open spec fn has_door(self, d: Door) -> bool {
        self.doors.contains(d)
    }

    /// Room-local well-formedness: no two enemies share a tile, and every
    /// enemy stands on an interior tile.
    pub open spec fn enemies_wf(self) -> bool {
        &&& forall|i: int, j: int|
            0 <= i < j < self.enemies.len()
                ==> (#[trigger] self.enemies[i]).position != (#[trigger] self.enemies[j]).position
        &&& forall|i: int|
            0 <= i < self.enemies.len() ==> in_interior((#[trigger] self.enemies[i]).position)
    }
}

/// A fixed-size playable area at one grid coordinate, with a door set and an
/// enemy list. Created once per coordinate and never regenerated; only its
/// enemy list changes afterwards (on combat wins).
#[derive(Debug)]
pub struct Room {
    pub grid_position: RoomPosition,
    pub doors: Vec<Door>,
    pub enemies: Vec<Enemy>,
}

impl View for Room {
    type V = RoomView;

    open spec fn view(&self) -> RoomView {
        RoomView { coord: self.grid_position.coord(), doors: self.doors@, enemies: self.enemies@ }
    }
}

impl Room {
    /// A new room with the given doors and no enemies.
    pub fn new(grid_position: RoomPosition, doors: Vec<Door>) -> (r: Room)
        ensures
            r.grid_position == grid_position,
            r@.doors == doors@,
            r@.enemies == Seq::<Enemy>::empty(),
    {
        Room { grid_position, doors, enemies: Vec::new() }
    }

    /// Whether the room has a door in direction `d`.
    pub fn has_door(&self, d: Door) -> (r: bool)
        ensures
            r == self@.has_door(d),
    {
        let n = self.doors.len();
        let mut i: usize = 0;
        while i < n
            invariant
                0 <= i <= n,
                n == self.doors@.len(),
                forall|k: int| 0 <= k < i ==> self.doors@[k] != d,
            decreases n - i,
        {
            if self.doors[i] == d {
                return true;
            }
            i = i + 1;
        }
        false
    }

    /// Appends `enemies` to the room's enemy list, draining the argument.
    pub fn add_enemies(&mut self, enemies: &mut Vec<Enemy>)
        ensures
            final(self)@.enemies == old(self)@.enemies + old(enemies)@,
            final(enemies)@ == Seq::<Enemy>::empty(),
            final(self).grid_position == old(self).grid_position,
            final(self)@.doors == old(self)@.doors,
    {
        self.enemies.append(enemies);
    }

    /// The enemy standing on `position`, if any. When the room's enemies are
    /// well-formed there is at most one.
    pub fn get_enemy_at_position(&self, position: Position) -> (r: Option<Enemy>)
        ensures
            match r {
                Some(e) => self@.enemies.contains(e) && e.position == position,
                None => forall|i: int|
                    0 <= i < self@.enemies.len()
                        ==> (#[trigger] self@.enemies[i]).position != position,
            },
    {
        let n = self.enemies.len();
        let mut i: usize = 0;
        while i < n
            invariant
                0 <= i <= n,
                n == self@.enemies.len(),
                forall|k: int| 0 <= k < i ==> (#[trigger] self@.enemies[k]).position != position,
            decreases n - i,
        {
            if self.enemies[i].position == position {
                let e = self.enemies[i];
                assert(self@.enemies.contains(e)) by {
                    assert(self@.enemies[i as int] == e);
                }
                return Some(e);
            }
            i = i + 1;
        }
        None
    }

    /// An owned copy of the room with the same model.
    pub fn duplicate(&self) -> (r: Room)
        ensures
            r@ == self@,
            r.grid_position == self.grid_position,
    {
        let mut doors: Vec<Door> = Vec::new();
        let mut i: usize = 0;
        let dn = self.doors.len();
        while i < dn
            invariant
                0 <= i <= dn,
                dn == self.doors@.len(),
                doors@ == self.doors@.take(i as int),
            decreases dn - i,
        {
            doors.push(self.doors[i]);
            proof {
                assert(doors@ == self.doors@.take(i + 1));
            }
            i = i + 1;
        }
        let mut enemies: Vec<Enemy> = Vec::new();
        let mut j: usize = 0;
        let en = self.enemies.len();
        while j < en
            invariant
                0 <= j <= en,
                en == self.enemies@.len(),
                enemies@ == self.enemies@.take(j as int),
            decreases en - j,
        {
            enemies.push(self.enemies[j]);
            proof {
                assert(enemies@ == self.enemies@.take(j + 1));
            }
            j = j + 1;
        }
        proof {
            assert(self.doors@.take(dn as int) == self.doors@);
            assert(self.enemies@.take(en as int) == self.enemies@);
        }
        let r = Room { grid_position: self.grid_position, doors, enemies };
        proof {
            assert(r@ =~= self@);
        }
        r
    }
}

/// Whether a room generated at `c` after entry through `entry` must open a
/// door in direction `d`: the entry door is always open, and so is every
/// door a generated neighbor already opens toward `c`.
pub open spec fn forced_door(
    m: Map<(int, int), RoomView>,
    c: (int, int),
    entry: Door,
    d: Door,
) -> bool {
    d == entry || neighbor_forces(m, c, d)
}

/// Whether direction `d` is freely choosable for a room generated at `c`:
/// not the entry door, and no neighbor on that side has been generated yet.
pub open spec fn free_door(
    m: Map<(int, int), RoomView>,
    c: (int, int),
    entry: Door,
    d: Door,
) -> bool {
    d != entry && !m.dom().contains(spec_neighbor(c, d))
}

/// How the already generated neighbors constrain one direction of a new
/// room.
enum DoorChoice {
    /// The direction must become a door.
    Forced,
    /// The direction must stay a wall.
    Banned,
    /// The generator may choose.
    Free,
}

/// Classifies one direction of a room about to be generated at
/// `grid_position`, entered through `entry`.
fn classify_direction(rooms: &RoomStore, grid_position: RoomPosition, entry: Door, d: Door) -> (r:
    DoorChoice)
    requires
        rooms.wf(),
        neighbor_bans(rooms@, grid_position.coord(), entry) == false,
    ensures
        (r is Forced) <==> forced_door(rooms@, grid_position.coord(), entry, d),
        (r is Banned) ==> neighbor_bans(rooms@, grid_position.coord(), d),
        (r is Free) <==> free_door(rooms@, grid_position.coord(), entry, d),
{
    let ghost c = grid_position.coord();
    if d == entry {
        proof {
            if rooms@.dom().contains(spec_neighbor(c, entry)) {
                assert(neighbor_forces(rooms@, c, entry));
            }
        }
        return DoorChoice::Forced;
    }
    match neighbor_room_position(grid_position, d) {
        None => {
            proof {
                rooms.lemma_dom_in_range();
                assert(!rooms@.dom().contains(spec_neighbor(c, d)));
            }
            DoorChoice::Free
        },
        Some(p) => {
            match rooms.get(p) {
                None => DoorChoice::Free,
                Some(nb) => {
                    if nb.has_door(d.opposite()) {
                        DoorChoice::Forced
                    } else {
                        DoorChoice::Banned
                    }
                },
            }
        },
    }
}

/// Whether some enemy of the list stands on `p`.
fn enemies_contain_position(enemies: &Vec<Enemy>, p: Position) -> (r: bool)
    ensures
        r == exists|i: int| 0 <= i < enemies@.len() && (#[trigger] enemies@[i]).position == p,
{
    let n = enemies.len();
    let mut i: usize = 0;
    while i < n
        invariant
            0 <= i <= n,
            n == enemies@.len(),
            forall|k: int| 0 <= k < i ==> (#[trigger] enemies@[k]).position != p,
        decreases n - i,
    {
        if enemies[i].position == p {
            assert(enemies@[i as int].position == p);
            return true;
        }
        i = i + 1;
    }
    false
}

impl Room {
    /// Materializes the room for a coordinate that has never been visited,
    /// entered through the door `direction`.
    ///
    /// The new room opens a door toward every generated neighbor that opens
    /// one back (the entry side included) and keeps a wall toward every
    /// generated neighbor that shows a wall; the remaining directions are
    /// chosen at random, a weighted draw picking how many. Enemies are
    /// placed on distinct spawn tiles — collisions are re-drawn a bounded
    /// number of times, and a room that stays crowded simply gets fewer
    /// enemies — with a level set by the coordinate's Manhattan distance
    /// from the origin.
    #[verifier::loop_isolation(false)]
    pub fn create_next_room(
        grid_position: RoomPosition,
        direction: Door,
        rooms: &RoomStore,
    ) -> (room: Room)
        requires
            rooms.wf(),
            neighbor_bans(rooms@, grid_position.coord(), direction) == false,
        ensures
            room.grid_position == grid_position,
            room@.has_door(direction),
            room@.doors.no_duplicates(),
            forall|d: Door|
                forced_door(rooms@, grid_position.coord(), direction, d) ==> #[trigger] room@.has_door(
                    d,
                ),
            forall|d: Door|
                neighbor_bans(rooms@, grid_position.coord(), d) ==> !(#[trigger] room@.has_door(d)),
            room@.enemies_wf(),
            forall|i: int|
                0 <= i < room@.enemies.len() ==> (#[trigger] room@.enemies[i]).level
                    == spec_enemy_level(spec_manhattan(grid_position.coord())),
    {
        let ghost m = rooms@;
        let ghost c = grid_position.coord();
        let dirs: Vec<Door> = vec![Door::TOP, Door::RIGHT, Door::BOTTOM, Door::LEFT];
        proof {
            assert forall|d: Door| dirs@.contains(d) by {
                match d {
                    Door::TOP => assert(dirs@[0] == d),
                    Door::RIGHT => assert(dirs@[1] == d),
                    Door::BOTTOM => assert(dirs@[2] == d),
                    Door::LEFT => assert(dirs@[3] == d),
                }
            }
            assert(dirs@.no_duplicates());
        }
        let mut doors: Vec<Door> = Vec::new();
        let mut free: Vec<Door> = Vec::new();
        let mut i: usize = 0;
        while i < 4
            invariant
                0 <= i <= 4,
                forall|k: int|
                    0 <= k < i && forced_door(m, c, direction, dirs@[k]) ==> doors@.contains(
                        #[trigger] dirs@[k],
                    ),
                forall|k: int|
                    0 <= k < i && free_door(m, c, direction, dirs@[k]) ==> free@.contains(
                        #[trigger] dirs@[k],
                    ),
                forall|t: int|
                    0 <= t < doors@.len() ==> forced_door(m, c, direction, #[trigger] doors@[t]),
                forall|t: int|
                    0 <= t < free@.len() ==> free_door(m, c, direction, #[trigger] free@[t]),
                forall|t: int|
                    0 <= t < doors@.len() ==> exists|k: int|
                        0 <= k < i && #[trigger] doors@[t] == dirs@[k],
                forall|t: int|
                    0 <= t < free@.len() ==> exists|k: int|
                        0 <= k < i && #[trigger] free@[t] == dirs@[k],
                doors@.no_duplicates(),
                free@.no_duplicates(),
                doors@.len() + free@.len() <= i,
            decreases 4 - i,
        {
            let d = dirs[i];
            proof {
                assert forall|t: int| 0 <= t < doors@.len() implies doors@[t] != d by {
                    let k = choose|k: int| 0 <= k < i && doors@[t] == dirs@[k];
                    assert(dirs@[k] != dirs@[i as int]);
                }
                assert forall|t: int| 0 <= t < free@.len() implies free@[t] != d by {
                    let k = choose|k: int| 0 <= k < i && free@[t] == dirs@[k];
                    assert(dirs@[k] != dirs@[i as int]);
                }
            }
            let ghost doors0 = doors@;
            let ghost free0 = free@;
            match classify_direction(rooms, grid_position, direction, d) {
                DoorChoice::Forced => {
                    doors.push(d);
                    proof {
                        assert(doors@[doors0.len() as int] == d);
                        assert(doors@.contains(d));
                    }
                },
                DoorChoice::Banned => {},
                DoorChoice::Free => {
                    free.push(d);
                    proof {
                        assert(free@[free0.len() as int] == d);
                        assert(free@.contains(d));
                    }
                },
            }
            proof {
                assert forall|x: Door| doors0.contains(x) implies doors@.contains(x) by {
                    let t = choose|t: int| 0 <= t < doors0.len() && doors0[t] == x;
                    assert(doors@[t] == x);
                }
                assert forall|x: Door| free0.contains(x) implies free@.contains(x) by {
                    let t = choose|t: int| 0 <= t < free0.len() && free0[t] == x;
                    assert(free@[t] == x);
                }
            }
            i = i + 1;
        }
        // Draw how many of the free directions open, then pick that many
        // uniformly without replacement.
        proof {
            assert(forced_door(m, c, direction, direction));
            assert(dirs@.contains(direction));
            assert(doors@.contains(direction));
            assert(doors@.len() >= 1);
        }
        let num_free = free.len();
        let num_new_doors: u8 = if num_free == 0 {
            0
        } else {
            let dist = door_distribution(num_free as u8);
            match select_random_weighted(&dist) {
                Ok(v) => *v,
                Err(_) => {
                    proof {
                        assert(dist@[0].1 > 0);
                        assert(false);
                    }
                    0
                },
            }
        };
        let mut remaining: usize = num_new_doors as usize;
        let mut j: usize = 0;
        while j < num_free
            invariant
                0 <= j <= num_free,
                num_free == free@.len(),
                remaining <= num_free - j,
                forall|t: int|
                    0 <= t < doors@.len() ==> forced_door(m, c, direction, #[trigger] doors@[t])
                        || free_door(m, c, direction, #[trigger] doors@[t]),
                forall|d: Door|
                    forced_door(m, c, direction, d) ==> #[trigger] doors@.contains(d),
                doors@.no_duplicates(),
                forall|t: int| j <= t < free@.len() ==> !doors@.contains(#[trigger] free@[t]),
            decreases num_free - j,
        {
            let slots = (num_free - j) as u64;
            if remaining > 0 && random_below(slots) < remaining as u64 {
                let ghost doors1 = doors@;
                proof {
                    assert forall|t: int|
                        j + 1 <= t < free@.len() implies !doors@.push(free@[j as int]).contains(
                        #[trigger] free@[t],
                    ) by {
                        assert(free@[t] != free@[j as int]);
                        assert(!doors@.contains(free@[t]));
                        vstd::seq_lib::lemma_seq_contains_after_push(
                            doors@,
                            free@[j as int],
                            free@[t],
                        );
                    }
                }
                doors.push(free[j]);
                proof {
                    assert forall|d2: Door|
                        forced_door(m, c, direction, d2) implies #[trigger] doors@.contains(
                        d2,
                    ) by {
                        assert(doors1.contains(d2));
                        let t = choose|t: int| 0 <= t < doors1.len() && doors1[t] == d2;
                        assert(doors@[t] == d2);
                    }
                }
                remaining = remaining - 1;
            }
            j = j + 1;
        }
        // Enemies: a weighted count, each on a fresh spawn tile, levelled by
        // the distance from the origin.
        let xi: i16 = grid_position.x as i16;
        let yi: i16 = grid_position.y as i16;
        let ax: u16 = if xi < 0 {
            (-xi) as u16
        } else {
            xi as u16
        };
        let ay: u16 = if yi < 0 {
            (-yi) as u16
        } else {
            yi as u16
        };
        let distance: u16 = ax + ay;
        proof {
            assert(distance == spec_manhattan(c));
        }
        let level = enemy_level_function(distance);
        let edist = enemy_distribution();
        let num_enemies: u8 = match select_random_weighted(&edist) {
            Ok(v) => *v,
            Err(_) => {
                proof {
                    assert(edist@[0].1 > 0);
                    assert(false);
                }
                0
            },
        };
        let mut enemies: Vec<Enemy> = Vec::new();
        let mut n: u8 = 0;
        while n < num_enemies
            invariant
                forall|s: int, t: int|
                    0 <= s < t < enemies@.len() ==> (#[trigger] enemies@[s]).position != (
                    #[trigger] enemies@[t]).position,
                forall|s: int|
                    0 <= s < enemies@.len() ==> in_spawn_area((#[trigger] enemies@[s]).position),
                forall|s: int|
                    0 <= s < enemies@.len() ==> (#[trigger] enemies@[s]).level == level,
            decreases num_enemies - n,
        {
            // Bounded rejection sampling: a tile that is already taken is
            // re-drawn at most a fixed number of times, and a draw that
            // still collides ends enemy placement early.
            let mut tries: u8 = 0;
            let mut placed = false;
            while tries < 16 && !placed
                invariant
                    tries <= 16,
                    forall|s: int, t: int|
                        0 <= s < t < enemies@.len() ==> (#[trigger] enemies@[s]).position != (
                        #[trigger] enemies@[t]).position,
                    forall|s: int|
                        0 <= s < enemies@.len() ==> in_spawn_area(
                            (#[trigger] enemies@[s]).position,
                        ),
                    forall|s: int|
                        0 <= s < enemies@.len() ==> (#[trigger] enemies@[s]).level == level,
                decreases 16 - tries,
            {
                let p = generate_enemy_position();
                if !enemies_contain_position(&enemies, p) {
                    enemies.push(Enemy { level, position: p });
                    placed = true;
                }
                tries = tries + 1;
            }
            if placed {
                n = n + 1;
            } else {
                n = num_enemies;
            }
        }
        let room = Room { grid_position, doors, enemies };
        proof {
            assert forall|d: Door|
                forced_door(m, c, direction, d) implies #[trigger] room@.has_door(d) by {
                assert(dirs@.contains(d));
            }
            assert forall|d: Door| neighbor_bans(m, c, d) implies !(#[trigger] room@.has_door(
                d,
            )) by {
                if room@.has_door(d) {
                    let t = choose|t: int|
                        0 <= t < room@.doors.len() && room@.doors[t] == d;
                    assert(forced_door(m, c, direction, d) || free_door(m, c, direction, d));
                }
            }
            assert(forced_door(m, c, direction, direction));
            assert forall|s: int|
                0 <= s < room@.enemies.len() implies in_interior(
                (#[trigger] room@.enemies[s]).position,
            ) by {
                crate::helper::lemma_spawn_area_interior(room@.enemies[s].position);
            }
        }
        room
    }
}

} // verus!

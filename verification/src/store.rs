//! The room graph store: the single source of truth for which rooms have
//! been generated, modelled as a map from grid coordinates to rooms.

use crate::consts::Door;
use crate::errors::DungeonError;
use crate::room::{neighbor_room_position, spec_neighbor, Room, RoomPosition, RoomView};
use vstd::prelude::*;

verus! {

/// Whether some room of `s` sits at coordinate `c`.
pub open spec fn has_coord(s: Seq<Room>, c: (int, int)) -> bool {
    exists|i: int| 0 <= i < s.len() && (#[trigger] s[i])@.coord == c
}

/// The index of the room of `s` at coordinate `c` (meaningful only when
/// `has_coord(s, c)` holds and coordinates are distinct).
pub open spec fn idx_of(s: Seq<Room>, c: (int, int)) -> int {
    choose|i: int| 0 <= i < s.len() && (#[trigger] s[i])@.coord == c
}

/// Whether no two rooms of `s` share a coordinate.
pub open spec fn coords_distinct(s: Seq<Room>) -> bool {
    forall|i: int, j: int|
        0 <= i < j < s.len() ==> (#[trigger] s[i])@.coord != (#[trigger] s[j])@.coord
}

/// With distinct coordinates, the index of a coordinate is unique.
proof fn lemma_idx_of(s: Seq<Room>, c: (int, int), j: int)
    requires
        coords_distinct(s),
        0 <= j < s.len(),
        s[j]@.coord == c,
    ensures
        has_coord(s, c),
        idx_of(s, c) == j,
{
    assert(has_coord(s, c));
    let k = idx_of(s, c);
    if k < j {
        assert(s[k]@.coord != s[j]@.coord);
    } else if k > j {
        assert(s[j]@.coord != s[k]@.coord);
    }
}

/// A sparse mapping from grid coordinates to generated rooms. Its model is a
/// [`Map`] from coordinates to room models; no two stored rooms share a
/// coordinate.
pub struct RoomStore {
    rooms: Vec<Room>,
}

impl View for RoomStore {
    type V = Map<(int, int), RoomView>;

    closed spec fn view(&self) -> Map<(int, int), RoomView> {
        Map::new(
            |c: (int, int)| has_coord(self.rooms@, c),
            |c: (int, int)| self.rooms@[idx_of(self.rooms@, c)]@,
        )
    }
}

impl RoomStore {
    /// The store's internal invariant: one room per coordinate.
    pub closed spec fn wf(self) -> bool {
        coords_distinct(self.rooms@)
    }

    /// An empty store.
    pub fn new() -> (s: RoomStore)
        ensures
            s.wf(),
            s@.dom() == Set::<(int, int)>::empty(),
    {
        let s = RoomStore { rooms: Vec::new() };
        proof {
            assert(s@.dom() =~= Set::<(int, int)>::empty());
        }
        s
    }

    /// Whether a room has been generated at `coord`.
    pub fn contains(&self, coord: RoomPosition) -> (r: bool)
        ensures
            r == self@.dom().contains(coord.coord()),
    {
        let n = self.rooms.len();
        let mut i: usize = 0;
        while i < n
            invariant
                0 <= i <= n,
                n == self.rooms@.len(),
                forall|k: int| 0 <= k < i ==> (#[trigger] self.rooms@[k])@.coord != coord.coord(),
            decreases n - i,
        {
            let r = &self.rooms[i];
            if r.grid_position.x == coord.x && r.grid_position.y == coord.y {
                proof {
                    assert(self.rooms@[i as int]@.coord == coord.coord());
                }
                return true;
            }
            i = i + 1;
        }
        false
    }

    /// The room generated at `coord`, if any.
    #[verifier::loop_isolation(false)]
    pub fn get(&self, coord: RoomPosition) -> (r: Option<&Room>)
        requires
            self.wf(),
        ensures
            match r {
                Some(room) => {
                    &&& self@.dom().contains(coord.coord())
                    &&& room@ == self@[coord.coord()]
                    &&& room.grid_position == coord
                },
                None => !self@.dom().contains(coord.coord()),
            },
    {
        let n = self.rooms.len();
        let mut i: usize = 0;
        while i < n
            invariant
                0 <= i <= n,
                n == self.rooms@.len(),
                forall|k: int| 0 <= k < i ==> (#[trigger] self.rooms@[k])@.coord != coord.coord(),
            decreases n - i,
        {
            let r = &self.rooms[i];
            if r.grid_position.x == coord.x && r.grid_position.y == coord.y {
                proof {
                    lemma_idx_of(self.rooms@, coord.coord(), i as int);
                }
                return Some(r);
            }
            i = i + 1;
        }
        None
    }

    /// Whether no room has been generated yet.
    pub fn is_empty(&self) -> (r: bool)
        ensures
            r == forall|c: (int, int)| !(#[trigger] self@.dom().contains(c)),
    {
        let empty = self.rooms.is_empty();
        proof {
            if !empty {
                assert(self.rooms@[0]@.coord == self.rooms@[0]@.coord);
                assert(has_coord(self.rooms@, self.rooms@[0]@.coord));
                assert(self@.dom().contains(self.rooms@[0]@.coord));
            }
        }
        empty
    }

    /// The coordinates of every generated room, one entry each when the
    /// store is well-formed: the snapshot a map display walks.
    #[verifier::loop_isolation(false)]
    pub fn coordinates(&self) -> (r: Vec<RoomPosition>)
        ensures
            forall|i: int|
                0 <= i < r@.len() ==> self@.dom().contains((#[trigger] r@[i]).coord()),
            forall|c: (int, int)| #[trigger]
                self@.dom().contains(c) ==> exists|i: int|
                    0 <= i < r@.len() && (#[trigger] r@[i]).coord() == c,
    {
        let n = self.rooms.len();
        let mut r: Vec<RoomPosition> = Vec::new();
        let mut i: usize = 0;
        while i < n
            invariant
                0 <= i <= n,
                r@.len() == i,
                forall|k: int|
                    0 <= k < i ==> (#[trigger] r@[k]).coord() == self.rooms@[k]@.coord,
            decreases n - i,
        {
            r.push(self.rooms[i].grid_position);
            i = i + 1;
        }
        proof {
            assert forall|k: int|
                0 <= k < r@.len() implies self@.dom().contains((#[trigger] r@[k]).coord()) by {
                assert(self.rooms@[k]@.coord == r@[k].coord());
                assert(has_coord(self.rooms@, r@[k].coord()));
            }
            assert forall|c: (int, int)| #[trigger] self@.dom().contains(c) implies exists|k: int|
                0 <= k < r@.len() && (#[trigger] r@[k]).coord() == c by {
                let j = choose|j: int| 0 <= j < self.rooms@.len() && (#[trigger] self.rooms@[j])@.coord == c;
                assert(r@[j].coord() == c);
            }
        }
        r
    }

    /// Audits the whole explored world for door symmetry: `Ok` exactly when
    /// every pair of adjacent generated rooms agrees on the door between
    /// them. A correctly generated world always passes; a failure surfaces
    /// as `InvariantViolation` instead of being silently ignored.
    #[verifier::loop_isolation(false)]
    pub fn check_door_symmetry(&self) -> (r: Result<(), DungeonError>)
        requires
            self.wf(),
        ensures
            (r is Ok) <==> door_symmetric(self@),
            r is Err ==> r->Err_0 == DungeonError::InvariantViolation,
    {
        let coords = self.coordinates();
        let n = coords.len();
        let dirs: Vec<Door> = vec![Door::TOP, Door::RIGHT, Door::BOTTOM, Door::LEFT];
        proof {
            assert forall|d: Door| dirs@.contains(d) by {
                match d {
                    Door::TOP => assert(dirs@[0] == d),
                    Door::RIGHT => assert(dirs@[1] == d),
                    Door::BOTTOM => assert(dirs@[2] == d),
                    Door::LEFT => assert(dirs@[3] == d),
                }
            }
        }
        let mut i: usize = 0;
        while i < n
            invariant
                0 <= i <= n,
                n == coords@.len(),
                forall|k: int|
                    0 <= k < i ==> coord_symmetric(self@, (#[trigger] coords@[k]).coord()),
            decreases n - i,
        {
            let p = coords[i];
            let room = match self.get(p) {
                Some(room) => room,
                None => {
                    proof {
                        assert(false);
                    }
                    return Err(DungeonError::InvariantViolation);
                },
            };
            let mut j: usize = 0;
            while j < 4
                invariant
                    0 <= j <= 4,
                    forall|t: int|
                        0 <= t < j ==> direction_symmetric(
                            self@,
                            p.coord(),
                            #[trigger] dirs@[t],
                        ),
                decreases 4 - j,
            {
                let d = dirs[j];
                if room.has_door(d) {
                    match neighbor_room_position(p, d) {
                        None => {
                            proof {
                                self.lemma_dom_in_range();
                                assert(!self@.dom().contains(spec_neighbor(p.coord(), d)));
                            }
                        },
                        Some(np) => {
                            match self.get(np) {
                                None => {},
                                Some(nb) => {
                                    if !nb.has_door(d.opposite()) {
                                        proof {
                                            assert(self@[p.coord()].has_door(d));
                                            assert(self@.dom().contains(
                                                spec_neighbor(p.coord(), d),
                                            ));
                                            assert(!self@[spec_neighbor(p.coord(), d)].has_door(
                                                d.spec_opposite(),
                                            ));
                                            assert(!door_symmetric(self@));
                                        }
                                        return Err(DungeonError::InvariantViolation);
                                    }
                                },
                            }
                        },
                    }
                }
                j = j + 1;
            }
            proof {
                assert forall|d: Door|
                    self@[p.coord()].has_door(d) && self@.dom().contains(
                        spec_neighbor(p.coord(), d),
                    ) implies self@[spec_neighbor(p.coord(), d)].has_door(d.spec_opposite()) by {
                    assert(dirs@.contains(d));
                    let t = choose|t: int| 0 <= t < dirs@.len() && dirs@[t] == d;
                    assert(direction_symmetric(self@, p.coord(), dirs@[t]));
                }
                assert(coord_symmetric(self@, p.coord()));
            }
            i = i + 1;
        }
        proof {
            assert forall|c: (int, int), d: Door|
                self@.dom().contains(c) && #[trigger] self@[c].has_door(d) && self@.dom().contains(
                    spec_neighbor(c, d),
                ) implies self@[spec_neighbor(c, d)].has_door(d.spec_opposite()) by {
                let k = choose|k: int| 0 <= k < coords@.len() && (#[trigger] coords@[k]).coord() == c;
                assert(coord_symmetric(self@, coords@[k].coord()));
            }
        }
        Ok(())
    }

    /// Every generated coordinate fits the grid's coordinate type.
    pub proof fn lemma_dom_in_range(&self)
        ensures
            forall|c: (int, int)| #[trigger]
                self@.dom().contains(c) ==> -128 <= c.0 <= 127 && -128 <= c.1 <= 127,
    {
        assert forall|c: (int, int)| #[trigger] self@.dom().contains(c) implies -128 <= c.0 <= 127
            && -128 <= c.1 <= 127 by {
            let i = idx_of(self.rooms@, c);
            assert(0 <= i < self.rooms@.len() && self.rooms@[i]@.coord == c);
        }
    }

    /// Stores `room` under `coord`, replacing whatever was there. The one
    /// way the map ever changes: the binding for `coord` is set, all others
    /// stay as they were.
    #[verifier::loop_isolation(false)]
    pub fn insert_or_replace(&mut self, coord: RoomPosition, room: Room)
        requires
            old(self).wf(),
            room.grid_position == coord,
        ensures
            final(self).wf(),
            final(self)@.dom() == old(self)@.dom().insert(coord.coord()),
            final(self)@[coord.coord()] == room@,
            forall|c: (int, int)|
                c != coord.coord() && old(self)@.dom().contains(c)
                    ==> final(self)@[c] == old(self)@[c],
    {
        let ghost s0 = self.rooms@;
        let n = self.rooms.len();
        let mut i: usize = 0;
        while i < n
            invariant
                0 <= i <= n,
                n == self.rooms@.len(),
                self.rooms@ == s0,
                forall|k: int| 0 <= k < i ==> (#[trigger] s0[k])@.coord != coord.coord(),
            decreases n - i,
        {
            let r = &self.rooms[i];
            if r.grid_position.x == coord.x && r.grid_position.y == coord.y {
                proof {
                    assert(s0[i as int]@.coord == coord.coord());
                }
                self.rooms[i] = room;
                proof {
                    let s1 = self.rooms@;
                    assert(s1 == s0.update(i as int, room));
                    assert forall|k: int, l: int| 0 <= k < l < s1.len() implies (#[trigger] s1[k])@.coord
                        != (#[trigger] s1[l])@.coord by {
                        assert(s0[k]@.coord != s0[l]@.coord);
                        if k == i {
                            assert(s1[k]@.coord == s0[k]@.coord);
                        }
                        if l == i {
                            assert(s1[l]@.coord == s0[l]@.coord);
                        }
                    }
                    lemma_idx_of(s1, coord.coord(), i as int);
                    assert forall|c: (int, int)|
                        c != coord.coord() && old(self)@.dom().contains(c) implies self@[c] == old(
                        self,
                    )@[c] by {
                        let j = idx_of(s0, c);
                        assert(0 <= j < s0.len() && s0[j]@.coord == c);
                        assert(j != i);
                        lemma_idx_of(s1, c, j);
                    }
                    assert forall|c: (int, int)| #[trigger]
                        self@.dom().contains(c) implies old(self)@.dom().insert(
                        coord.coord(),
                    ).contains(c) by {
                        if c != coord.coord() {
                            let j = idx_of(s1, c);
                            assert(0 <= j < s1.len() && s1[j]@.coord == c);
                            assert(j != i);
                            lemma_idx_of(s0, c, j);
                        }
                    }
                    assert forall|c: (int, int)| #[trigger]
                        old(self)@.dom().contains(c) implies self@.dom().contains(c) by {
                        let j = idx_of(s0, c);
                        assert(0 <= j < s0.len() && s0[j]@.coord == c);
                        assert(s1[j]@.coord == c);
                        assert(has_coord(s1, c));
                    }
                    assert(self@.dom() =~= old(self)@.dom().insert(coord.coord()));
                }
                return ;
            }
            i = i + 1;
        }
        self.rooms.push(room);
        proof {
            let s1 = self.rooms@;
            assert(s1 == s0.push(room));
            assert forall|k: int, l: int| 0 <= k < l < s1.len() implies (#[trigger] s1[k])@.coord
                != (#[trigger] s1[l])@.coord by {
                if l < s0.len() {
                    assert(s0[k]@.coord != s0[l]@.coord);
                } else {
                    assert(s1[l] == room);
                    assert(s0[k]@.coord != coord.coord());
                }
            }
            lemma_idx_of(s1, coord.coord(), s0.len() as int);
            assert forall|c: (int, int)|
                c != coord.coord() && old(self)@.dom().contains(c) implies self@[c] == old(
                self,
            )@[c] by {
                let j = idx_of(s0, c);
                assert(0 <= j < s0.len() && s0[j]@.coord == c);
                assert(s1[j]@.coord == c);
                lemma_idx_of(s1, c, j);
            }
            assert forall|c: (int, int)| #[trigger] self@.dom().contains(c) implies old(
                self,
            )@.dom().insert(coord.coord()).contains(c) by {
                if c != coord.coord() {
                    let j = idx_of(s1, c);
                    assert(0 <= j < s1.len() && s1[j]@.coord == c);
                    assert(j < s0.len());
                    lemma_idx_of(s0, c, j);
                }
            }
            assert forall|c: (int, int)| #[trigger]
                old(self)@.dom().contains(c) implies self@.dom().contains(c) by {
                let j = idx_of(s0, c);
                assert(0 <= j < s0.len() && s0[j]@.coord == c);
                assert(s1[j]@.coord == c);
                assert(has_coord(s1, c));
            }
            assert(self@.dom() =~= old(self)@.dom().insert(coord.coord()));
        }
    }
}

/// Whether the grid neighbor of `c` in direction `d` has been generated and
/// opens a door back toward `c`: a room generated at `c` must then open the
/// matching door.
pub open spec fn neighbor_forces(m: Map<(int, int), RoomView>, c: (int, int), d: Door) -> bool {
    m.dom().contains(spec_neighbor(c, d)) && m[spec_neighbor(c, d)].has_door(d.spec_opposite())
}

/// Whether the grid neighbor of `c` in direction `d` has been generated with
/// a wall toward `c`: a room generated at `c` must then keep that wall.
pub open spec fn neighbor_bans(m: Map<(int, int), RoomView>, c: (int, int), d: Door) -> bool {
    m.dom().contains(spec_neighbor(c, d)) && !m[spec_neighbor(c, d)].has_door(d.spec_opposite())
}

/// One coordinate's share of the door-symmetry invariant, for one direction:
/// a door toward a generated neighbor is answered by the matching door back.
pub open spec fn direction_symmetric(
    m: Map<(int, int), RoomView>,
    c: (int, int),
    d: Door,
) -> bool {
    m[c].has_door(d) && m.dom().contains(spec_neighbor(c, d)) ==> m[spec_neighbor(c, d)].has_door(
        d.spec_opposite(),
    )
}

/// One coordinate's share of the door-symmetry invariant, over all four
/// directions.
pub open spec fn coord_symmetric(m: Map<(int, int), RoomView>, c: (int, int)) -> bool {
    forall|d: Door| #![trigger m[c].has_door(d)] direction_symmetric(m, c, d)
}

/// The door-symmetry invariant over a generated world: whenever two adjacent
/// rooms both exist, the one declares a door toward the other exactly when
/// the other declares the matching door back.
pub open spec fn door_symmetric(m: Map<(int, int), RoomView>) -> bool {
    forall|c: (int, int), d: Door|
        #![trigger m[c].has_door(d)]
        m.dom().contains(c) && m[c].has_door(d) && m.dom().contains(spec_neighbor(c, d))
            ==> m[spec_neighbor(c, d)].has_door(d.spec_opposite())
}

/// Door-set stability between two snapshots of the world: every room of the
/// first still exists in the second, with the very same door list. This is
/// what every mutating operation of a game session preserves — a room's
/// doors, once generated, never change.
pub open spec fn doors_preserved(
    m1: Map<(int, int), RoomView>,
    m2: Map<(int, int), RoomView>,
) -> bool {
    forall|c: (int, int)| #[trigger]
        m1.dom().contains(c) ==> m2.dom().contains(c) && m2[c].doors == m1[c].doors
}

/// Every stored room is filed under its own coordinate and is room-locally
/// well-formed.
pub open spec fn rooms_wf(m: Map<(int, int), RoomView>) -> bool {
    forall|c: (int, int)| #[trigger]
        m.dom().contains(c) ==> m[c].coord == c && m[c].enemies_wf()
}

/// Adding a freshly generated room keeps the world door-symmetric, provided
/// the new room opens a door exactly toward each existing neighbor that
/// opens one back.
pub proof fn lemma_insert_fresh_preserves_symmetry(
    m: Map<(int, int), RoomView>,
    c: (int, int),
    r: RoomView,
)
    requires
        door_symmetric(m),
        !m.dom().contains(c),
        forall|d: Door|
            m.dom().contains(spec_neighbor(c, d)) && m[spec_neighbor(c, d)].has_door(
                d.spec_opposite(),
            ) ==> #[trigger] r.has_door(d),
        forall|d: Door|
            m.dom().contains(spec_neighbor(c, d)) && !m[spec_neighbor(c, d)].has_door(
                d.spec_opposite(),
            ) ==> !(#[trigger] r.has_door(d)),
    ensures
        door_symmetric(m.insert(c, r)),
{
    let m2 = m.insert(c, r);
    assert forall|c2: (int, int), d: Door|
        m2.dom().contains(c2) && #[trigger] m2[c2].has_door(d) && m2.dom().contains(
            spec_neighbor(c2, d),
        ) implies m2[spec_neighbor(c2, d)].has_door(d.spec_opposite()) by {
        crate::room::lemma_neighbor_inverse(c2, d);
        let nb = spec_neighbor(c2, d);
        if c2 == c {
            assert(nb != c);
            assert(m.dom().contains(nb));
            assert(r.has_door(d));
            assert(m[nb].has_door(d.spec_opposite()));
        } else if nb == c {
            assert(c2 == spec_neighbor(c, d.spec_opposite()));
            assert(m[c2].has_door(d));
            assert(d.spec_opposite().spec_opposite() == d);
            assert(r.has_door(d.spec_opposite()));
        } else {
            assert(m[c2].has_door(d));
            assert(m[nb].has_door(d.spec_opposite()));
        }
    }
}

/// Replacing a stored room with one that has the same door set keeps the
/// world door-symmetric.
pub proof fn lemma_replace_same_doors_preserves_symmetry(
    m: Map<(int, int), RoomView>,
    c: (int, int),
    r: RoomView,
)
    requires
        door_symmetric(m),
        m.dom().contains(c),
        forall|d: Door| #[trigger] r.has_door(d) <==> m[c].has_door(d),
    ensures
        door_symmetric(m.insert(c, r)),
{
    let m2 = m.insert(c, r);
    assert forall|c2: (int, int), d: Door|
        m2.dom().contains(c2) && #[trigger] m2[c2].has_door(d) && m2.dom().contains(
            spec_neighbor(c2, d),
        ) implies m2[spec_neighbor(c2, d)].has_door(d.spec_opposite()) by {
        crate::room::lemma_neighbor_inverse(c2, d);
        let nb = spec_neighbor(c2, d);
        assert(m[c2].has_door(d));
        assert(m[nb].has_door(d.spec_opposite()));
    }
}

} // verus!

//! The computational core of the map display: the bounding box of the
//! explored world. Drawing the map itself is presentation and lives outside
//! the library.

use crate::room::RoomPosition;
use crate::store::RoomStore;
use vstd::prelude::*;

verus! {

/// The map display over the explored room store.
pub struct Minimap {}

impl Minimap {
    /// The tight bounding box `(min_x, max_x, min_y, max_y)` of all
    /// generated room coordinates. On an empty store the bounds come back
    /// inverted (each minimum above its maximum), so an empty box shows as
    /// such.
    #[verifier::loop_isolation(false)]
    pub fn get_map_bounds(rooms: &RoomStore) -> (r: (i8, i8, i8, i8))
        ensures
            forall|c: (int, int)| #[trigger]
                rooms@.dom().contains(c) ==> r.0 <= c.0 <= r.1 && r.2 <= c.1 <= r.3,
            (exists|c: (int, int)| #[trigger] rooms@.dom().contains(c)) ==> {
                &&& exists|c: (int, int)| #[trigger] rooms@.dom().contains(c) && c.0 == r.0
                &&& exists|c: (int, int)| #[trigger] rooms@.dom().contains(c) && c.0 == r.1
                &&& exists|c: (int, int)| #[trigger] rooms@.dom().contains(c) && c.1 == r.2
                &&& exists|c: (int, int)| #[trigger] rooms@.dom().contains(c) && c.1 == r.3
            },
    {
        let coords = rooms.coordinates();
        let mut min_x: i8 = i8::MAX;
        let mut max_x: i8 = i8::MIN;
        let mut min_y: i8 = i8::MAX;
        let mut max_y: i8 = i8::MIN;
        let n = coords.len();
        let mut i: usize = 0;
        while i < n
            invariant
                0 <= i <= n,
                n == coords@.len(),
                forall|k: int|
                    0 <= k < i ==> {
                        let c = (#[trigger] coords@[k]).coord();
                        min_x <= c.0 <= max_x && min_y <= c.1 <= max_y
                    },
                i > 0 ==> exists|k: int|
                    0 <= k < i && (#[trigger] coords@[k]).coord().0 == min_x,
                i > 0 ==> exists|k: int|
                    0 <= k < i && (#[trigger] coords@[k]).coord().0 == max_x,
                i > 0 ==> exists|k: int|
                    0 <= k < i && (#[trigger] coords@[k]).coord().1 == min_y,
                i > 0 ==> exists|k: int|
                    0 <= k < i && (#[trigger] coords@[k]).coord().1 == max_y,
                i == 0 ==> min_x == i8::MAX && max_x == i8::MIN && min_y == i8::MAX && max_y
                    == i8::MIN,
            decreases n - i,
        {
            let p = coords[i];
            if p.x < min_x || i == 0 {
                min_x = p.x;
            }
            if p.x > max_x || i == 0 {
                max_x = p.x;
            }
            if p.y < min_y || i == 0 {
                min_y = p.y;
            }
            if p.y > max_y || i == 0 {
                max_y = p.y;
            }
            i = i + 1;
        }
        proof {
            assert forall|c: (int, int)| #[trigger] rooms@.dom().contains(c) implies min_x <= c.0
                <= max_x && min_y <= c.1 <= max_y by {
                let k = choose|k: int| 0 <= k < coords@.len() && (#[trigger] coords@[k]).coord() == c;
                assert(coords@[k].coord() == c);
            }
            if exists|c: (int, int)| #[trigger] rooms@.dom().contains(c) {
                let c0 = choose|c: (int, int)| #[trigger] rooms@.dom().contains(c);
                let k0 = choose|k: int|
                    0 <= k < coords@.len() && (#[trigger] coords@[k]).coord() == c0;
                assert(coords@.len() > 0);
                let kmin = choose|k: int|
                    0 <= k < coords@.len() && (#[trigger] coords@[k]).coord().0 == min_x;
                assert(rooms@.dom().contains(coords@[kmin].coord()));
                let kmax = choose|k: int|
                    0 <= k < coords@.len() && (#[trigger] coords@[k]).coord().0 == max_x;
                assert(rooms@.dom().contains(coords@[kmax].coord()));
                let lmin = choose|k: int|
                    0 <= k < coords@.len() && (#[trigger] coords@[k]).coord().1 == min_y;
                assert(rooms@.dom().contains(coords@[lmin].coord()));
                let lmax = choose|k: int|
                    0 <= k < coords@.len() && (#[trigger] coords@[k]).coord().1 == max_y;
                assert(rooms@.dom().contains(coords@[lmax].coord()));
            }
        }
        (min_x, max_x, min_y, max_y)
    }
}

} // verus!

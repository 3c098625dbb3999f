//! Directions, in-room tile positions, and the fixed room geometry.

use crate::errors::DungeonError;
use vstd::prelude::*;

verus! {

/// A direction out of a room; each room has at most one door per direction.
#[allow(non_camel_case_types)]
#[derive(Copy, Clone, PartialEq, Eq, Structural, Debug)]
pub enum Door {
    TOP,
    RIGHT,
    BOTTOM,
    LEFT,
}

impl Door {
    /// The direction on the other side of the same wall: a door toward a
    /// neighbor matches the neighbor's door in the opposite direction.
    pub open spec fn spec_opposite(self) -> Door {
        match self {
            Door::TOP => Door::BOTTOM,
            Door::BOTTOM => Door::TOP,
            Door::LEFT => Door::RIGHT,
            Door::RIGHT => Door::LEFT,
        }
    }

    /// Executable counterpart of [`Door::spec_opposite`].
    #[verifier::when_used_as_spec(spec_opposite)]
    pub fn opposite(self) -> (r: Door)
        ensures
            r == self.spec_opposite(),
    {
        match self {
            Door::TOP => Door::BOTTOM,
            Door::BOTTOM => Door::TOP,
            Door::LEFT => Door::RIGHT,
            Door::RIGHT => Door::LEFT,
        }
    }
}

/// A tile position inside a room, in screen convention: `x` grows rightward,
/// `y` grows downward.
#[derive(Copy, Clone, PartialEq, Eq, Structural, Debug)]
pub struct Position {
    pub x: u8,
    pub y: u8,
}

/// Leftmost playable column of a room.
pub const ROOM_MIN_X: u8 = 2;

/// Rightmost playable column of a room.
pub const ROOM_MAX_X: u8 = 11;

/// Topmost playable row of a room.
pub const ROOM_MIN_Y: u8 = 2;

/// Bottommost playable row of a room.
pub const ROOM_MAX_Y: u8 = 6;

/// Whether a tile lies within the playable interior of a room.
pub open spec fn in_interior(p: Position) -> bool {
    &&& ROOM_MIN_X <= p.x <= ROOM_MAX_X
    &&& ROOM_MIN_Y <= p.y <= ROOM_MAX_Y
}

/// Defensive bounds check on a tile position: hands the position back when
/// it lies in the playable interior, and reports `PositionOutOfBounds`
/// otherwise.
pub fn check_position_bounds(position: Position) -> (r: Result<Position, DungeonError>)
    ensures
        r == if in_interior(position) {
            Ok::<Position, DungeonError>(position)
        } else {
            Err::<Position, DungeonError>(DungeonError::PositionOutOfBounds)
        },
{
    if ROOM_MIN_X <= position.x && position.x <= ROOM_MAX_X && ROOM_MIN_Y <= position.y
        && position.y <= ROOM_MAX_Y {
        Ok(position)
    } else {
        Err(DungeonError::PositionOutOfBounds)
    }
}

} // verus!

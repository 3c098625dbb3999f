//! Enemies: static occupants of room tiles.

use crate::consts::Position;
use vstd::prelude::*;

verus! {

/// An enemy standing on a tile of a room. A value type, owned by exactly one
/// room and removed from that room's enemy list when defeated.
#[derive(PartialEq, Eq, Structural, Debug, Clone, Copy)]
pub struct Enemy {
    pub level: u16,
    pub position: Position,
}

} // verus!

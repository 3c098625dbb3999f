//! The error taxonomy of the dungeon core.

use vstd::prelude::*;

verus! {

/// Errors the core can report. All of them indicate a malformed input or a
/// broken structural invariant, never a normal gameplay outcome (walking into
/// a wall is not an error).
#[derive(Copy, Clone, PartialEq, Eq, Structural, Debug)]
pub enum DungeonError {
    /// A weighted distribution was empty or had only zero weights.
    EmptyDistribution,
    /// A tile position lies outside the playable interior of a room.
    PositionOutOfBounds,
    /// Two adjacent rooms disagree about the door between them.
    InvariantViolation,
}

} // verus!

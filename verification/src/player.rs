//! The player: position in the current room, level, health, and whether a
//! combat prompt is active.

use crate::consts::Position;
use vstd::prelude::*;

verus! {

/// The single player of a game session.
#[derive(PartialEq, Eq, Structural, Clone, Copy)]
pub struct Player {
    pub position: Position,
    pub level: u16,
    pub fighting: bool,
    pub health: u16,
}

impl Player {
    /// A fresh player: level 1, full health, no fight pending.
    pub fn new(position: Position) -> (p: Player)
        ensures
            p.position == position,
            p.level == 1,
            p.fighting == false,
            p.health == 100,
    {
        Player { position, level: 1, fighting: false, health: 100 }
    }

    /// Sets whether a combat prompt is active.
    pub fn set_fighting(&mut self, value: bool)
        ensures
            *final(self) == (Player { fighting: value, ..*old(self) }),
    {
        self.fighting = value;
    }

    /// Deals damage: health drops by `value`, clamped at zero so a losing
    /// streak can never wrap around.
    pub fn decrease_health(&mut self, value: u16)
        ensures
            final(self).health == if old(self).health >= value {
                old(self).health - value
            } else {
                0
            },
            final(self).position == old(self).position,
            final(self).level == old(self).level,
            final(self).fighting == old(self).fighting,
    {
        if self.health >= value {
            self.health = self.health - value;
        } else {
            self.health = 0;
        }
    }
}

} // verus!

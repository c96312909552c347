//! The player: a single cell that falls under gravity and can flap upward.
use vstd::prelude::*;

use crate::config::{GRAVITY, MAX_FALL_SPEED, PLAYER_FLAP_Y};

verus! {

/// The avatar. Its column never changes; its row and vertical speed do.
#[derive(Clone, Copy, Debug, PartialEq, Eq, Structural)]
pub struct Player {
    pub x: i32,
    pub y: i32,
    pub speed_y: i32,
}

impl Player {
    /// A player that stands on or below the top row, with a speed that flaps
    /// and gravity can produce.
    pub open spec fn wf(self) -> bool {
        &&& self.y >= 0
        &&& -PLAYER_FLAP_Y <= self.speed_y <= MAX_FALL_SPEED
    }

    /// Speed after one step of gravity, damped by one unit above the cap.
    pub open spec fn next_speed(self) -> int {
        let v = self.speed_y + GRAVITY;
        if v > MAX_FALL_SPEED {
            v - 1
        } else {
            v
        }
    }

    /// The player after one physics step: gravity, then motion, then the
    /// row clamped at the top of the screen.
    pub open spec fn stepped(self) -> Player {
        let v = self.next_speed();
        let y = self.y + v;
        Player { x: self.x, y: if y < 0 { 0 } else { y as i32 }, speed_y: v as i32 }
    }

    /// The player after a flap: the vertical speed is set upward.
    pub open spec fn flapped(self) -> Player {
        Player { speed_y: -PLAYER_FLAP_Y as i32, ..self }
    }

    /// A player at rest at the given cell.
    pub fn new(x: i32, y: i32) -> (p: Player)
        ensures
            p == (Player { x, y, speed_y: 0 }),
    {
        Player { x, y, speed_y: 0 }
    }

    /// One physics step of the player.
    pub fn fixed_update(&mut self)
        requires
            old(self).wf(),
            old(self).y <= i32::MAX - MAX_FALL_SPEED,
        ensures
            *final(self) == old(self).stepped(),
            final(self).wf(),
            final(self).y >= 0,
    {
        self.speed_y += GRAVITY;
        if self.speed_y > MAX_FALL_SPEED {
            self.speed_y -= 1;
        }
        self.y += self.speed_y;

        if self.y < 0 {
            self.y = 0;
        }
    }

    /// Sets the vertical speed upward.
    pub fn flap(&mut self)
        ensures
            *final(self) == old(self).flapped(),
    {
        self.speed_y = -PLAYER_FLAP_Y;
    }
}

} // verus!

//! Obstacles: walls with a passable gap that move left across the screen.
use vstd::prelude::*;

use crate::config::{
    MAX_OBSTACLE_GAP, MAX_OBSTACLE_GAP_Y, MIN_OBSTACLE_GAP, MIN_OBSTACLE_GAP_Y, PLAYER_SPEED_X,
    SCREEN_HEIGHT,
};
use crate::random::draw_between;

verus! {

/// A wall at column `x`, open on the rows `gap_y .. gap_y + gap_size`.
#[derive(Clone, Copy, Debug, PartialEq, Eq, Structural)]
pub struct Obstacle {
    pub x: i32,
    pub gap_y: i32,
    pub gap_size: i32,
}

/// The rows below `n` on which the obstacle draws a wall cell, in ascending
/// order.
pub open spec fn wall_rows_below(o: Obstacle, n: int) -> Seq<i32>
    decreases n,
{
    if n <= 0 {
        Seq::empty()
    } else if o.is_wall(n - 1) {
        wall_rows_below(o, n - 1).push((n - 1) as i32)
    } else {
        wall_rows_below(o, n - 1)
    }
}

impl Obstacle {
    /// A gap drawn from the configured ranges.
    pub open spec fn wf(self) -> bool {
        &&& MIN_OBSTACLE_GAP_Y <= self.gap_y <= MAX_OBSTACLE_GAP_Y
        &&& MIN_OBSTACLE_GAP <= self.gap_size <= MAX_OBSTACLE_GAP
    }

    /// The obstacle one physics step later.
    pub open spec fn moved(self) -> Obstacle {
        Obstacle { x: (self.x - PLAYER_SPEED_X) as i32, ..self }
    }

    /// A player on row `y` of this obstacle's column flies through: the row
    /// lies strictly below the gap's top row and at most `gap_size` rows
    /// further down.
    pub open spec fn lets_through(self, y: int) -> bool {
        self.gap_y < y <= self.gap_y + self.gap_size
    }

    /// Row `row` of the column is drawn as wall: it lies outside the rows
    /// `gap_y .. gap_y + gap_size`.
    pub open spec fn is_wall(self, row: int) -> bool {
        !(self.gap_y <= row < self.gap_y + self.gap_size)
    }

    /// A new obstacle at column `x`, its gap drawn at random.
    pub fn new(x: i32) -> (o: Obstacle)
        ensures
            o.x == x,
            o.wf(),
    {
        let gap_size = draw_between(MIN_OBSTACLE_GAP, MAX_OBSTACLE_GAP);
        let gap_y = draw_between(MIN_OBSTACLE_GAP_Y, MAX_OBSTACLE_GAP_Y);

        Obstacle::from_draws(x, gap_y, gap_size)
    }

    /// The obstacle at column `x` with the given gap, drawn from the
    /// configured ranges by the caller.
    pub fn from_draws(x: i32, gap_y: i32, gap_size: i32) -> (o: Obstacle)
        requires
            MIN_OBSTACLE_GAP_Y <= gap_y <= MAX_OBSTACLE_GAP_Y,
            MIN_OBSTACLE_GAP <= gap_size <= MAX_OBSTACLE_GAP,
        ensures
            o == (Obstacle { x, gap_y, gap_size }),
            o.wf(),
    {
        Obstacle { x, gap_y, gap_size }
    }

    /// Moves the obstacle left by one physics step.
    pub fn fixed_update(&mut self)
        requires
            old(self).x >= i32::MIN + PLAYER_SPEED_X,
        ensures
            *final(self) == old(self).moved(),
    {
        self.x -= PLAYER_SPEED_X;
    }

    /// Whether a player on row `y` of this column passes through the gap.
    pub fn passes(&self, y: i32) -> (r: bool)
        requires
            self.wf(),
        ensures
            r == self.lets_through(y as int),
    {
        self.gap_y < y && y <= self.gap_y + self.gap_size
    }

    /// The rows of the screen on which this obstacle draws a wall cell, in
    /// ascending order.
    pub fn wall_rows(&self) -> (rows: Vec<i32>)
        requires
            self.wf(),
        ensures
            rows@ == wall_rows_below(*self, SCREEN_HEIGHT as int),
    {
        let mut rows: Vec<i32> = Vec::new();
        let mut i: i32 = 0;
        while i < SCREEN_HEIGHT
            invariant
                0 <= i <= SCREEN_HEIGHT,
                self.wf(),
                rows@ == wall_rows_below(*self, i as int),
            decreases SCREEN_HEIGHT - i,
        {
            if !(i >= self.gap_y && i < self.gap_y + self.gap_size) {
                rows.push(i);
            }
            i += 1;
        }
        rows
    }
}

} // verus!

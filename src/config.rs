//! The constants of the game: the screen, the physics and the random ranges.
use vstd::prelude::*;

verus! {

/// Width of the character grid.
pub const SCREEN_WIDTH: i32 = 80;

/// Height of the character grid; a player below this row has fallen out.
pub const SCREEN_HEIGHT: i32 = 50;

/// Length of one physics step, in milliseconds.
pub const MS_PER_TICK: u64 = 60;

/// Microseconds in one millisecond: frame time is carried in microseconds.
pub const US_PER_MS: u64 = 1000;

/// Added to the player's vertical speed at every physics step.
pub const GRAVITY: i32 = 1;

/// Distance that every obstacle moves left at every physics step.
pub const PLAYER_SPEED_X: i32 = 1;

/// Upward speed that a flap sets.
pub const PLAYER_FLAP_Y: i32 = 4;

/// Falling speed above which gravity is damped by one unit.
pub const MAX_FALL_SPEED: i32 = 2;

/// Column of a new player.
pub const PLAYER_START_X: i32 = 5;

/// Row of a new player.
pub const PLAYER_START_Y: i32 = 25;

/// Smallest horizontal distance between two successive obstacles.
pub const MIN_SPACE_BETWEEN_OBSTACLE: i32 = 20;

/// Largest horizontal distance between two successive obstacles.
pub const MAX_SPACE_BETWEEN_OBSTACLE: i32 = 40;

/// Smallest top row of a gap.
pub const MIN_OBSTACLE_GAP_Y: i32 = 10;

/// Largest top row of a gap. With the largest gap height the gap then
/// reaches below the screen; that is kept, and harmless: rows below the
/// screen are neither drawn nor reachable in play.
pub const MAX_OBSTACLE_GAP_Y: i32 = SCREEN_HEIGHT - 10;

/// Smallest height of a gap.
pub const MIN_OBSTACLE_GAP: i32 = 7;

/// Largest height of a gap.
pub const MAX_OBSTACLE_GAP: i32 = 13;

/// Most obstacles that a course holds: a course is laid over two screen
/// widths with at least `MIN_SPACE_BETWEEN_OBSTACLE` between obstacles.
pub const MAX_OBSTACLES: usize = 8;

} // verus!

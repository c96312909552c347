//! Game logic of a small "flappy" arcade game: a player falls under gravity,
//! flaps upward, and flies through a stream of walls with gaps.
//!
//! The physics, the stream of obstacles and the mode machine live here; the
//! window, the key polling and the drawing are left to the program that runs
//! the frame loop.
pub mod config;
pub mod course;
pub mod obstacle;
pub mod player;
mod random;
pub mod state;

pub use obstacle::Obstacle;
pub use player::Player;
pub use state::{Frame, GameMode, Key, State};

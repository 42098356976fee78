//! Core simulation of a small side-scrolling game: a bird driven by
//! impulse-and-gravity kinematics must pass through gaps between scrolling
//! pipe obstacles.  Rendering, input polling and frame pacing are external
//! collaborators; this crate holds only the per-frame simulation logic,
//! with its behaviour stated in contracts and verified.

use vstd::prelude::*;

pub mod bird;
pub mod game;
pub mod geometry;
pub mod pipe;
pub mod rng;

verus! {

/// Screen width in pixels.
pub const SCREEN_WIDTH: i32 = 240;

/// Screen height in pixels.
pub const SCREEN_HEIGHT: i32 = 160;

/// Side length of the bird's square bounding box.
pub const BIRD_SIZE: i32 = 8;

/// The bird's fixed horizontal position.
pub const BIRD_START_X: i32 = 50;

/// The bird's vertical position at start and after a reset: three quarters
/// of the way down the screen.
pub const BIRD_START_Y: i32 = 120;

/// Fixed-point scale: accelerations are stored premultiplied by this, and
/// divided by it when they feed into the velocity.
pub const SCALE: i32 = 100;

/// Upward impulse added to the vertical acceleration by one flap.
pub const FLAP_IMPULSE: i32 = 3 * SCALE;

/// Amount by which the vertical acceleration decays toward zero each frame.
pub const ACCEL_DECAY: i32 = 15;

/// Fall speed the velocity decays toward each frame; with no impulse left
/// the bird settles into falling at this rate.
pub const TERMINAL_VELOCITY: i32 = 2;

/// Upper clamp on the vertical velocity.
pub const VEL_MAX: i32 = 100;

/// Lower clamp on the vertical acceleration.
pub const ACCEL_MIN: i32 = -3 * SCALE;

/// Upper clamp on the vertical acceleration.
pub const ACCEL_MAX: i32 = SCALE;

/// Side length of one sprite tile; pipe heights are counted in tiles.
pub const TILE: i32 = 8;

/// Width of a pipe: three tiles.
pub const PIPE_WIDTH: i32 = 3 * TILE;

/// Vertical opening between the top and bottom pipe of an obstacle.
pub const GAP: i32 = 64;

/// Height of every top pipe, and the range of the random offset that
/// places the gap: three quarters of the screen height less the gap.
pub const MAX_PIPE_HEIGHT: i32 = 56;

/// Number of obstacles alive at once.
pub const OBSTACLE_COUNT: usize = 2;

/// Horizontal position the first obstacle is reset to: the right screen edge.
pub const OBSTACLE_X0: i32 = SCREEN_WIDTH;

/// Horizontal position the second obstacle is reset to: half the screen width.
pub const OBSTACLE_X1: i32 = 120;

/// Points awarded when the bird passes an obstacle.
pub const SCORE_PER_OBSTACLE: u32 = 50;

} // verus!

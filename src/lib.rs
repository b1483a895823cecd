//! A side-scrolling "flappy bird" game model.
//!
//! Positions, velocities and distances are integers in hundredths of a
//! screen pixel, so that every update is exact and its arithmetic can be
//! checked. A host loop drives a [`game::GameState`] once per frame: it
//! forwards key presses, calls `update`, then draws what `draw_commands`
//! lists.
use vstd::prelude::*;

pub mod bird;
pub mod pipes;
pub mod game;

verus! {

/// Number of model units in one screen pixel.
pub const SUBPIXELS: i64 = 100;

/// Width of the playing field.
pub const SCREEN_WIDTH: i64 = 26700;

/// Height of the playing field; `y` grows downwards from 0 at the top.
pub const SCREEN_HEIGHT: i64 = 40000;

/// Downward acceleration added to the bird's velocity every frame.
pub const GRAVITY: i64 = 50;

/// Velocity the bird is given by a jump (negative is upwards).
pub const JUMP_FORCE: i64 = -1000;

/// Fixed horizontal position of the bird.
pub const BIRD_START_X: i64 = 10000;

/// Vertical position of the bird when a game starts: half the screen height.
pub const BIRD_START_Y: i64 = 20000;

/// Distance a pipe pair scrolls to the left every frame.
pub const PIPE_SPEED: i64 = 500;

/// Horizontal distance between two consecutive pipe pairs.
pub const PIPE_SPACING: i64 = 30000;

/// Where new pipe pairs appear: the right edge of the screen.
pub const SPAWN_X: i64 = SCREEN_WIDTH;

/// A new pair is spawned once the last one stands further than this left of
/// the right edge. It is one scroll step short of the spacing, so the new
/// pair appears exactly `PIPE_SPACING` behind the last one.
pub const SPAWN_DISTANCE: i64 = PIPE_SPACING - PIPE_SPEED;

/// A pair left of this line has scrolled fully off the screen (the width of a
/// pipe past the left edge) and is removed.
pub const OFF_SCREEN_X: i64 = -5200;

/// Lowest gap anchor a new pair may get.
pub const GAP_MIN: i64 = 15000;

/// Bound (exclusive) on the gap anchor a new pair may get.
pub const GAP_MAX: i64 = 30000;

/// Half the height of the opening between the two pipes of a pair.
pub const HALF_GAP: i64 = 10000;

/// How far the top pipe's drawing position stands above the opening: the
/// length of the pipe sprite less the half gap.
pub const TOP_OFFSET: i64 = 22000;

} // verus!

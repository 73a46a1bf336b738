use vstd::prelude::*;

verus! {

/// One pixel, in the micro-pixels that all lengths are measured in.
pub const PX: i64 = 1_000_000;

/// Centre lines of the four walls.
pub const LEFT_WALL: i64 = -450 * PX;
pub const RIGHT_WALL: i64 = 450 * PX;
pub const BOTTOM_WALL: i64 = -300 * PX;
pub const TOP_WALL: i64 = 300 * PX;
pub const WALL_THICKNESS: i64 = 10 * PX;

pub const PADDLE_WIDTH: i64 = 120 * PX;
pub const PADDLE_HEIGHT: i64 = 20 * PX;
pub const PADDLE_START_Y: i64 = BOTTOM_WALL + 60 * PX;
/// Paddle speed in micro-pixels per microsecond (pixels per second).
pub const PADDLE_SPEED: i64 = 500;
/// Half a wall's thickness plus half the paddle's width.
pub const PADDLE_CLEARANCE: i64 = 65 * PX;
/// The paddle's centre never goes left of this: it stays clear of the wall.
pub const PADDLE_MIN_X: i64 = LEFT_WALL + PADDLE_CLEARANCE;
/// The paddle's centre never goes right of this.
pub const PADDLE_MAX_X: i64 = RIGHT_WALL - PADDLE_CLEARANCE;

pub const BALL_START_X: i64 = 0;
pub const BALL_START_Y: i64 = -50 * PX;
pub const BALL_DIAMETER: i64 = 30 * PX;
/// Initial ball velocity: speed 400 along the direction (1/2, -1/2).
pub const BALL_START_VX: i64 = 200;
pub const BALL_START_VY: i64 = -200;

pub const BRICK_WIDTH: i64 = 100 * PX;
pub const BRICK_HEIGHT: i64 = 30 * PX;
pub const GAP_BETWEEN_PADDLE_AND_BRICKS: i64 = 270 * PX;
pub const GAP_BETWEEN_BRICKS: i64 = 5 * PX;
pub const GAP_BETWEEN_BRICKS_AND_CEILING: i64 = 20 * PX;
pub const GAP_BETWEEN_BRICKS_AND_SIDES: i64 = 20 * PX;

} // verus!

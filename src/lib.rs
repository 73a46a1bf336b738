//! A fixed-step breakout simulation: a ball bouncing among a paddle, four
//! walls and a grid of bricks, with axis-aligned collision detection.
//!
//! All lengths are integers in micro-pixels and all durations integers in
//! microseconds, so a velocity in micro-pixels per microsecond reads the same
//! as one in pixels per second, and every step of the simulation is exact.

pub mod arena;
pub mod collision;
pub mod entities;
pub mod game;
pub mod geometry;
pub mod layout;
pub mod motion;
pub mod paddle;

pub use collision::{check_ball_collision, reflect, CollisionReport};
pub use entities::{Ball, Collider, ColliderKind};
pub use geometry::{collide, Collision, Vec2};
pub use motion::apply_velocity;
pub use paddle::{move_paddle, paddle_direction};
pub use layout::{brick_columns, brick_positions, brick_rows, walls};
pub use game::{should_close_window, GameState};

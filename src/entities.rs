use crate::geometry::Vec2;
use vstd::prelude::*;

verus! {

/// What a collider stands for; only bricks are destroyed when struck.
#[derive(Clone, Copy, Debug, PartialEq, Eq, Structural)]
pub enum ColliderKind {
    Paddle,
    Wall,
    Brick,
}

/// A rectangle that the ball can strike, centred on `position`.
#[derive(Clone, Copy, Debug, PartialEq, Eq, Structural)]
pub struct Collider {
    pub position: Vec2,
    pub size: Vec2,
    pub kind: ColliderKind,
}

/// The ball: the one moving rectangle of the simulation.
#[derive(Clone, Copy, Debug, PartialEq, Eq, Structural)]
pub struct Ball {
    pub position: Vec2,
    pub size: Vec2,
    pub velocity: Vec2,
}

/// Both components of `v` can be negated without leaving `i64`.
pub open spec fn negatable(v: Vec2) -> bool {
    v.x > i64::MIN && v.y > i64::MIN
}

} // verus!

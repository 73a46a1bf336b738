use crate::entities::Ball;
use crate::geometry::Vec2;
use vstd::prelude::*;

verus! {

pub open spec fn fits_i64(n: int) -> bool {
    i64::MIN <= n <= i64::MAX
}

/// Moving from `p` at velocity `v` for `dt` stays within `i64` on both axes.
pub open spec fn can_advance(p: Vec2, v: Vec2, dt: int) -> bool {
    fits_i64(p.x + v.x * dt) && fits_i64(p.y + v.y * dt)
}

/// The position reached from `p` at velocity `v` after `dt`.
pub open spec fn advanced(p: Vec2, v: Vec2, dt: int) -> Vec2 {
    Vec2 { x: (p.x + v.x * dt) as i64, y: (p.y + v.y * dt) as i64 }
}

proof fn lemma_product_fits_i128(a: int, b: int)
    requires
        i64::MIN <= a <= i64::MAX,
        i64::MIN <= b <= i64::MAX,
    ensures
        -0x4000_0000_0000_0000_0000_0000_0000_0000 <= a * b <= 0x4000_0000_0000_0000_0000_0000_0000_0000,
{
    assert(-0x8000_0000_0000_0000 <= a <= 0x8000_0000_0000_0000);
    assert(-0x8000_0000_0000_0000 <= b <= 0x8000_0000_0000_0000);
    assert(-0x4000_0000_0000_0000_0000_0000_0000_0000 <= a * b <= 0x4000_0000_0000_0000_0000_0000_0000_0000) by (nonlinear_arith)
        requires
            -0x8000_0000_0000_0000 <= a <= 0x8000_0000_0000_0000,
            -0x8000_0000_0000_0000 <= b <= 0x8000_0000_0000_0000,
    ;
}

/// `c + v * dt`, exactly.
fn advance_coord(c: i64, v: i64, dt: i64) -> (r: i64)
    requires
        fits_i64(c + v * dt),
    ensures
        r == c + v * dt,
{
    proof {
        lemma_product_fits_i128(v as int, dt as int);
    }
    let moved: i128 = c as i128 + (v as i128) * (dt as i128);
    moved as i64
}

/// Advances the ball by its velocity over `dt`, independently per axis.
pub fn apply_velocity(ball: &mut Ball, dt: i64)
    requires
        can_advance(old(ball).position, old(ball).velocity, dt as int),
    ensures
        *final(ball) == (Ball {
            position: advanced(old(ball).position, old(ball).velocity, dt as int),
            ..*old(ball)
        }),
{
    ball.position = Vec2 {
        x: advance_coord(ball.position.x, ball.velocity.x, dt),
        y: advance_coord(ball.position.y, ball.velocity.y, dt),
    };
}

} // verus!

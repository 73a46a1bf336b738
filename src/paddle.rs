use crate::arena::{PADDLE_MAX_X, PADDLE_MIN_X, PADDLE_SPEED};
use vstd::prelude::*;

verus! {

/// The net direction of held keys: left counts -1, right +1, both cancel.
pub open spec fn direction(left: bool, right: bool) -> int {
    (if right { 1int } else { 0int }) - (if left { 1int } else { 0int })
}

pub open spec fn clamp(v: int, lo: int, hi: int) -> int {
    if v < lo {
        lo
    } else if v > hi {
        hi
    } else {
        v
    }
}

/// Where the paddle centre moves from `x` in one tick of length `dt`.
pub open spec fn paddle_target(x: int, left: bool, right: bool, dt: int) -> int {
    clamp(
        x + direction(left, right) * PADDLE_SPEED * dt,
        PADDLE_MIN_X as int,
        PADDLE_MAX_X as int,
    )
}

/// Where the paddle centre stands after `n` ticks with the same keys held.
pub open spec fn paddle_after_ticks(x: int, left: bool, right: bool, dt: int, n: nat) -> int
    decreases n,
{
    if n == 0 {
        x
    } else {
        paddle_target(paddle_after_ticks(x, left, right, dt, (n - 1) as nat), left, right, dt)
    }
}

/// The net direction of the held keys.
pub fn paddle_direction(left: bool, right: bool) -> (d: i64)
    ensures
        d == direction(left, right),
{
    let mut d: i64 = 0;
    if left {
        d -= 1;
    }
    if right {
        d += 1;
    }
    d
}

/// Moves the paddle centre from `x` by the held keys over `dt`, clamped so
/// that the paddle stays between the walls.
pub fn move_paddle(x: i64, left: bool, right: bool, dt: i64) -> (r: i64)
    ensures
        r == paddle_target(x as int, left, right, dt as int),
        PADDLE_MIN_X <= r <= PADDLE_MAX_X,
{
    let d = paddle_direction(left, right);
    let step: i128 = (PADDLE_SPEED as i128) * (dt as i128);
    let new_x: i128 = if d < 0 {
        assert(direction(left, right) * PADDLE_SPEED * dt == -(step as int)) by (nonlinear_arith)
            requires
                direction(left, right) == -1,
                step == PADDLE_SPEED * dt,
        ;
        x as i128 - step
    } else if d > 0 {
        assert(direction(left, right) * PADDLE_SPEED * dt == step as int) by (nonlinear_arith)
            requires
                direction(left, right) == 1,
                step == PADDLE_SPEED * dt,
        ;
        x as i128 + step
    } else {
        assert(direction(left, right) * PADDLE_SPEED * dt == 0) by (nonlinear_arith)
            requires
                direction(left, right) == 0,
        ;
        x as i128
    };
    if new_x > PADDLE_MAX_X as i128 {
        PADDLE_MAX_X
    } else if new_x < PADDLE_MIN_X as i128 {
        PADDLE_MIN_X
    } else {
        new_x as i64
    }
}

proof fn lemma_left_ticks(x: int, dt: int, n: nat)
    requires
        PADDLE_MIN_X <= x <= PADDLE_MAX_X,
        dt >= 0,
    ensures
        paddle_after_ticks(x, true, false, dt, n) == if x - n * PADDLE_SPEED * dt
            < PADDLE_MIN_X {
            PADDLE_MIN_X as int
        } else {
            x - n * PADDLE_SPEED * dt
        },
    decreases n,
{
    if n > 0 {
        let m = (n - 1) as nat;
        lemma_left_ticks(x, dt, m);
        let before = m * PADDLE_SPEED * dt;
        let after = n * PADDLE_SPEED * dt;
        assert(after == before + PADDLE_SPEED * dt) by (nonlinear_arith)
            requires
                n == m + 1,
                before == m * PADDLE_SPEED * dt,
                after == n * PADDLE_SPEED * dt,
        ;
        assert(before >= 0) by (nonlinear_arith)
            requires
                dt >= 0,
                before == m * PADDLE_SPEED * dt,
        ;
        assert(direction(true, false) * PADDLE_SPEED * dt == -PADDLE_SPEED * dt);
        let prev = paddle_after_ticks(x, true, false, dt, m);
        assert(paddle_after_ticks(x, true, false, dt, n) == paddle_target(prev, true, false, dt));
        assert(paddle_target(prev, true, false, dt) == clamp(
            prev - PADDLE_SPEED * dt,
            PADDLE_MIN_X as int,
            PADDLE_MAX_X as int,
        ));
        assert(prev <= x);
    } else {
        assert(n * PADDLE_SPEED * dt == 0);
    }
}

/// Holding left long enough brings the paddle exactly to its left bound,
/// and no number of ticks takes it past that bound.
pub proof fn lemma_paddle_stops_at_left_bound(x: int, dt: int, n: nat)
    requires
        PADDLE_MIN_X <= x <= PADDLE_MAX_X,
        dt > 0,
        n * PADDLE_SPEED * dt >= x - PADDLE_MIN_X,
    ensures
        paddle_after_ticks(x, true, false, dt, n) == PADDLE_MIN_X,
        forall|m: nat| paddle_after_ticks(x, true, false, dt, m) >= PADDLE_MIN_X,
{
    lemma_left_ticks(x, dt, n);
    assert forall|m: nat| paddle_after_ticks(x, true, false, dt, m) >= PADDLE_MIN_X by {
        lemma_left_ticks(x, dt, m);
    }
}

} // verus!

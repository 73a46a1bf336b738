use crate::entities::{negatable, Ball, Collider, ColliderKind};
use crate::geometry::{collide, collision_of, Collision, Vec2};
use vstd::prelude::*;

verus! {

/// The velocity after striking `side`: the axis of that side is negated
/// when the ball is still moving into the collider, and left alone when it
/// is already moving away.
pub open spec fn reflected(v: Vec2, side: Collision) -> Vec2 {
    match side {
        Collision::Left => if v.x > 0 { Vec2 { x: (-v.x) as i64, y: v.y } } else { v },
        Collision::Right => if v.x < 0 { Vec2 { x: (-v.x) as i64, y: v.y } } else { v },
        Collision::Top => if v.y < 0 { Vec2 { x: v.x, y: (-v.y) as i64 } } else { v },
        Collision::Bottom => if v.y > 0 { Vec2 { x: v.x, y: (-v.y) as i64 } } else { v },
        Collision::Inside => v,
    }
}

pub open spec fn abs(n: int) -> int {
    if n < 0 { -n } else { n }
}

/// Reflects `velocity` off the struck `side`.
pub fn reflect(velocity: Vec2, side: Collision) -> (r: Vec2)
    requires
        negatable(velocity),
    ensures
        r == reflected(velocity, side),
        abs(r.x as int) == abs(velocity.x as int),
        abs(r.y as int) == abs(velocity.y as int),
        negatable(r),
{
    let reflect_x = match side {
        Collision::Left => velocity.x > 0,
        Collision::Right => velocity.x < 0,
        _ => false,
    };
    let reflect_y = match side {
        Collision::Top => velocity.y < 0,
        Collision::Bottom => velocity.y > 0,
        _ => false,
    };
    let mut r = velocity;
    if reflect_x {
        r.x = -r.x;
    }
    if reflect_y {
        r.y = -r.y;
    }
    r
}

/// What the ball strikes when tested against `c`.
pub open spec fn strike(ball: Ball, c: Collider) -> Option<Collision> {
    collision_of(ball.position, ball.size, c.position, c.size)
}

/// `c` is a brick that the ball strikes, and so leaves the playfield.
pub open spec fn breaks(ball: Ball, c: Collider) -> bool {
    c.kind == ColliderKind::Brick && strike(ball, c) is Some
}

/// The ball's velocity after one pass over `cs`, in order: each struck
/// collider reflects the velocity as it stands by then.
pub open spec fn velocity_after(ball: Ball, cs: Seq<Collider>) -> Vec2
    decreases cs.len(),
{
    if cs.len() == 0 {
        ball.velocity
    } else {
        let v = velocity_after(ball, cs.drop_last());
        match strike(ball, cs.last()) {
            Some(side) => reflected(v, side),
            None => v,
        }
    }
}

/// The colliders of `cs` that survive a pass, in their order.
pub open spec fn survivors(ball: Ball, cs: Seq<Collider>) -> Seq<Collider>
    decreases cs.len(),
{
    if cs.len() == 0 {
        cs
    } else {
        let s = survivors(ball, cs.drop_last());
        if breaks(ball, cs.last()) {
            s
        } else {
            s.push(cs.last())
        }
    }
}

/// The positions in `cs` of the bricks that a pass destroys, ascending.
pub open spec fn broken_indices(ball: Ball, cs: Seq<Collider>) -> Seq<usize>
    decreases cs.len(),
{
    if cs.len() == 0 {
        Seq::empty()
    } else {
        let s = broken_indices(ball, cs.drop_last());
        if breaks(ball, cs.last()) {
            s.push((cs.len() - 1) as usize)
        } else {
            s
        }
    }
}

/// How many colliders of `cs` the ball strikes; each asks for one sound.
pub open spec fn strike_count(ball: Ball, cs: Seq<Collider>) -> nat
    decreases cs.len(),
{
    if cs.len() == 0 {
        0
    } else {
        strike_count(ball, cs.drop_last()) + if strike(ball, cs.last()) is Some {
            1nat
        } else {
            0nat
        }
    }
}

/// How many bricks `cs` holds.
pub open spec fn brick_count(cs: Seq<Collider>) -> nat
    decreases cs.len(),
{
    if cs.len() == 0 {
        0
    } else {
        brick_count(cs.drop_last()) + if cs.last().kind == ColliderKind::Brick {
            1nat
        } else {
            0nat
        }
    }
}

/// What one collision pass did besides changing the ball and the colliders.
#[derive(Debug)]
pub struct CollisionReport {
    /// One collision sound is requested for each struck collider.
    pub sounds: usize,
    /// The positions, in the colliders as they were, of the destroyed bricks.
    pub removed: Vec<usize>,
}

/// Tests the ball against every collider in order. Each struck collider
/// reflects the ball's velocity; each struck brick is removed and scores one
/// point; each strike requests one sound.
pub fn check_ball_collision(
    ball: &mut Ball,
    colliders: &mut Vec<Collider>,
    score: &mut usize,
) -> (report: CollisionReport)
    requires
        negatable(old(ball).velocity),
        *old(score) + old(colliders)@.len() <= usize::MAX,
    ensures
        final(ball).position == old(ball).position,
        final(ball).size == old(ball).size,
        final(ball).velocity == velocity_after(*old(ball), old(colliders)@),
        negatable(final(ball).velocity),
        final(colliders)@ == survivors(*old(ball), old(colliders)@),
        report.removed@ == broken_indices(*old(ball), old(colliders)@),
        *final(score) == *old(score) + report.removed@.len(),
        report.sounds == strike_count(*old(ball), old(colliders)@),
{
    let ghost ball0 = *ball;
    let ghost cs = colliders@;
    let ghost score0 = *score;
    let mut kept: Vec<Collider> = Vec::new();
    let mut removed: Vec<usize> = Vec::new();
    let mut sounds: usize = 0;
    let mut i: usize = 0;
    while i < colliders.len()
        invariant
            i <= cs.len(),
            colliders@ == cs,
            ball.position == ball0.position,
            ball.size == ball0.size,
            ball.velocity == velocity_after(ball0, cs.take(i as int)),
            negatable(ball.velocity),
            kept@ == survivors(ball0, cs.take(i as int)),
            removed@ == broken_indices(ball0, cs.take(i as int)),
            sounds == strike_count(ball0, cs.take(i as int)),
            sounds <= i,
            removed@.len() <= i,
            *score == score0 + removed@.len(),
            score0 + cs.len() <= usize::MAX,
        decreases cs.len() - i,
    {
        let c = colliders[i];
        proof {
            assert(cs.take(i + 1).drop_last() =~= cs.take(i as int));
            assert(cs.take(i + 1).last() == c);
        }
        match collide(ball.position, ball.size, c.position, c.size) {
            Some(side) => {
                ball.velocity = reflect(ball.velocity, side);
                sounds += 1;
                if c.kind == ColliderKind::Brick {
                    *score += 1;
                    removed.push(i);
                } else {
                    kept.push(c);
                }
            },
            None => {
                kept.push(c);
            },
        }
        i += 1;
    }
    proof {
        assert(cs.take(cs.len() as int) =~= cs);
    }
    *colliders = kept;
    CollisionReport { sounds, removed }
}


/// A pass removes exactly the bricks it reports as destroyed: the colliders
/// that remain and the destroyed bricks together make up what was there, and
/// the number of bricks drops by the number destroyed.
pub proof fn lemma_pass_removes_struck_bricks(ball: Ball, cs: Seq<Collider>)
    ensures
        survivors(ball, cs).len() + broken_indices(ball, cs).len() == cs.len(),
        brick_count(survivors(ball, cs)) + broken_indices(ball, cs).len() == brick_count(cs),
    decreases cs.len(),
{
    if cs.len() > 0 {
        let s = survivors(ball, cs.drop_last());
        lemma_pass_removes_struck_bricks(ball, cs.drop_last());
        if !breaks(ball, cs.last()) {
            assert(s.push(cs.last()).drop_last() =~= s);
        }
    }
}

/// A pass that strikes no brick (only walls and the paddle, or nothing)
/// leaves the colliders as they were and destroys nothing.
pub proof fn lemma_pass_without_bricks_struck(ball: Ball, cs: Seq<Collider>)
    requires
        forall|i: int| 0 <= i < cs.len() ==> !breaks(ball, #[trigger] cs[i]),
    ensures
        survivors(ball, cs) == cs,
        broken_indices(ball, cs).len() == 0,
    decreases cs.len(),
{
    if cs.len() > 0 {
        let rest = cs.drop_last();
        assert forall|i: int| 0 <= i < rest.len() implies !breaks(ball, #[trigger] rest[i]) by {
            assert(rest[i] == cs[i]);
        }
        lemma_pass_without_bricks_struck(ball, rest);
        assert(!breaks(ball, cs[cs.len() - 1]));
        assert(rest.push(cs.last()) =~= cs);
    }
}

/// A collider at the front that is not a brick stays at the front.
pub proof fn lemma_survivors_keep_head(ball: Ball, cs: Seq<Collider>)
    requires
        cs.len() >= 1,
        cs[0].kind != ColliderKind::Brick,
    ensures
        survivors(ball, cs).len() >= 1,
        survivors(ball, cs)[0] == cs[0],
    decreases cs.len(),
{
    let rest = cs.drop_last();
    if cs.len() == 1 {
        assert(survivors(ball, rest) =~= Seq::<Collider>::empty());
    } else {
        lemma_survivors_keep_head(ball, rest);
    }
}

/// Where no collider of `cs` past the front is the paddle, no survivor past
/// the front is.
pub proof fn lemma_survivors_tail_not_paddle(ball: Ball, cs: Seq<Collider>)
    requires
        forall|i: int| 1 <= i < cs.len() ==> (#[trigger] cs[i]).kind != ColliderKind::Paddle,
    ensures
        forall|j: int|
            1 <= j < survivors(ball, cs).len() ==> (#[trigger] survivors(ball, cs)[j]).kind
                != ColliderKind::Paddle,
    decreases cs.len(),
{
    if cs.len() > 0 {
        let rest = cs.drop_last();
        assert forall|i: int| 1 <= i < rest.len() implies (#[trigger] rest[i]).kind
            != ColliderKind::Paddle by {
            assert(rest[i] == cs[i]);
        }
        lemma_survivors_tail_not_paddle(ball, rest);
        lemma_pass_removes_struck_bricks(ball, rest);
        if cs.len() == 1 {
            assert(survivors(ball, rest) =~= Seq::<Collider>::empty());
        } else {
            assert(cs[cs.len() - 1].kind != ColliderKind::Paddle);
        }
    }
}


/// Striking a side while already moving away from it changes nothing: a
/// Left strike with no rightward motion, a Right strike with no leftward
/// motion, a Bottom strike with no upward motion, a Top strike with no
/// downward motion.
pub proof fn lemma_no_reflection_when_moving_away(v: Vec2)
    ensures
        v.x <= 0 ==> reflected(v, Collision::Left) == v,
        v.x >= 0 ==> reflected(v, Collision::Right) == v,
        v.y <= 0 ==> reflected(v, Collision::Bottom) == v,
        v.y >= 0 ==> reflected(v, Collision::Top) == v,
        reflected(v, Collision::Inside) == v,
{
}


/// A pass only ever flips the sign of a velocity component: the ball keeps
/// its speed along each axis.
pub proof fn lemma_pass_conserves_speed(ball: Ball, cs: Seq<Collider>)
    requires
        negatable(ball.velocity),
    ensures
        negatable(velocity_after(ball, cs)),
        abs(velocity_after(ball, cs).x as int) == abs(ball.velocity.x as int),
        abs(velocity_after(ball, cs).y as int) == abs(ball.velocity.y as int),
    decreases cs.len(),
{
    if cs.len() > 0 {
        lemma_pass_conserves_speed(ball, cs.drop_last());
    }
}

} // verus!

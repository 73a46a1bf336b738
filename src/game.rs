use crate::arena::{
    BALL_DIAMETER, BALL_START_VX, BALL_START_VY, BALL_START_X, BALL_START_Y, BOTTOM_WALL,
    BRICK_HEIGHT, BRICK_WIDTH, GAP_BETWEEN_BRICKS, GAP_BETWEEN_BRICKS_AND_CEILING,
    GAP_BETWEEN_BRICKS_AND_SIDES, GAP_BETWEEN_PADDLE_AND_BRICKS, LEFT_WALL, PADDLE_HEIGHT,
    PADDLE_MAX_X, PADDLE_MIN_X, PADDLE_START_Y, PADDLE_WIDTH, RIGHT_WALL, TOP_WALL,
};
use crate::collision::{
    brick_count, broken_indices, check_ball_collision, lemma_pass_removes_struck_bricks,
    lemma_survivors_keep_head, lemma_survivors_tail_not_paddle, strike_count, survivors,
    velocity_after, CollisionReport,
};
use crate::entities::{negatable, Ball, Collider, ColliderKind};
use crate::geometry::Vec2;
use crate::layout::{
    brick_columns, brick_positions, brick_rows, fitting_count, grid_cell, wall_colliders, walls,
};
use crate::motion::{advanced, apply_velocity, can_advance};
use crate::paddle::{move_paddle, paddle_target};
use vstd::prelude::*;

verus! {

/// The paddle as a collider, with its centre at `x`.
pub open spec fn paddle_collider(x: i64) -> Collider {
    Collider {
        position: Vec2 { x, y: PADDLE_START_Y },
        size: Vec2 { x: PADDLE_WIDTH, y: PADDLE_HEIGHT },
        kind: ColliderKind::Paddle,
    }
}

/// The ball as it is served.
pub open spec fn initial_ball() -> Ball {
    Ball {
        position: Vec2 { x: BALL_START_X, y: BALL_START_Y },
        size: Vec2 { x: BALL_DIAMETER, y: BALL_DIAMETER },
        velocity: Vec2 { x: BALL_START_VX, y: BALL_START_VY },
    }
}

/// Columns of the starting grid.
pub open spec fn brick_grid_columns() -> int {
    fitting_count(
        RIGHT_WALL - LEFT_WALL - 2 * GAP_BETWEEN_BRICKS_AND_SIDES,
        BRICK_WIDTH as int,
        GAP_BETWEEN_BRICKS as int,
    )
}

/// Rows of the starting grid.
pub open spec fn brick_grid_rows() -> int {
    fitting_count(
        TOP_WALL - BOTTOM_WALL - GAP_BETWEEN_BRICKS_AND_CEILING - GAP_BETWEEN_PADDLE_AND_BRICKS,
        BRICK_HEIGHT as int,
        GAP_BETWEEN_BRICKS as int,
    )
}

/// Centre of the bottom-left brick.
pub open spec fn first_brick() -> Vec2 {
    Vec2 {
        x: (LEFT_WALL + GAP_BETWEEN_BRICKS_AND_SIDES + BRICK_WIDTH / 2) as i64,
        y: (BOTTOM_WALL + GAP_BETWEEN_PADDLE_AND_BRICKS + BRICK_HEIGHT / 2) as i64,
    }
}

/// Distance between the centres of neighbouring bricks.
pub open spec fn brick_step() -> Vec2 {
    Vec2 {
        x: (BRICK_WIDTH + GAP_BETWEEN_BRICKS) as i64,
        y: (BRICK_HEIGHT + GAP_BETWEEN_BRICKS) as i64,
    }
}

/// The bricks as laid out at the start, row by row from the bottom left.
pub open spec fn initial_bricks() -> Seq<Collider> {
    Seq::new(
        (brick_grid_rows() * brick_grid_columns()) as nat,
        |k: int|
            Collider {
                position: grid_cell(first_brick(), brick_step(), brick_grid_columns(), k),
                size: Vec2 { x: BRICK_WIDTH, y: BRICK_HEIGHT },
                kind: ColliderKind::Brick,
            },
    )
}

/// Everything the ball can strike at the start: the centred paddle, the
/// walls, then the bricks.
pub open spec fn initial_colliders() -> Seq<Collider> {
    seq![paddle_collider(0)] + wall_colliders() + initial_bricks()
}

/// The colliders with the paddle moved by the held keys over `dt`.
pub open spec fn with_paddle_moved(cs: Seq<Collider>, left: bool, right: bool, dt: int) -> Seq<
    Collider,
> {
    cs.update(0, paddle_collider(paddle_target(cs[0].position.x as int, left, right, dt) as i64))
}

/// The ball moved by its velocity over `dt`.
pub open spec fn ball_moved(ball: Ball, dt: int) -> Ball {
    Ball { position: advanced(ball.position, ball.velocity, dt), ..ball }
}

/// Whether the window should close: escape was just pressed while it had
/// focus.
pub fn should_close_window(focused: bool, escape_just_pressed: bool) -> (r: bool)
    ensures
        r == (focused && escape_just_pressed),
{
    focused && escape_just_pressed
}

/// The whole simulation: the ball, every collider (the paddle first), and
/// the number of bricks destroyed so far.
pub struct GameState {
    pub ball: Ball,
    pub colliders: Vec<Collider>,
    pub score: usize,
}

impl GameState {
    /// The paddle leads the colliders, within its bounds, and is the only
    /// paddle; the ball's velocity can be reflected; the score cannot
    /// overflow however many colliders are destroyed.
    pub open spec fn wf(&self) -> bool {
        &&& self.colliders@.len() >= 1
        &&& PADDLE_MIN_X <= self.colliders@[0].position.x <= PADDLE_MAX_X
        &&& self.colliders@[0] == paddle_collider(self.colliders@[0].position.x)
        &&& forall|i: int|
            1 <= i < self.colliders@.len() ==> (#[trigger] self.colliders@[i]).kind
                != ColliderKind::Paddle
        &&& negatable(self.ball.velocity)
        &&& self.score + self.colliders@.len() <= usize::MAX
    }

    /// The state at the start: ball served, paddle centred, walls up, the
    /// full grid of bricks, score zero.
    pub fn new() -> (s: GameState)
        ensures
            s.wf(),
            s.ball == initial_ball(),
            s.colliders@ == initial_colliders(),
            s.score == 0,
    {
        let ball = Ball {
            position: Vec2 { x: BALL_START_X, y: BALL_START_Y },
            size: Vec2 { x: BALL_DIAMETER, y: BALL_DIAMETER },
            velocity: Vec2 { x: BALL_START_VX, y: BALL_START_VY },
        };
        let mut colliders: Vec<Collider> = Vec::new();
        colliders.push(
            Collider {
                position: Vec2 { x: 0, y: PADDLE_START_Y },
                size: Vec2 { x: PADDLE_WIDTH, y: PADDLE_HEIGHT },
                kind: ColliderKind::Paddle,
            },
        );
        let mut wall_list = walls();
        colliders.append(&mut wall_list);

        let columns = brick_columns(
            RIGHT_WALL - LEFT_WALL,
            BRICK_WIDTH,
            GAP_BETWEEN_BRICKS,
            GAP_BETWEEN_BRICKS_AND_SIDES,
        );
        let rows = brick_rows(
            TOP_WALL - BOTTOM_WALL,
            BRICK_HEIGHT,
            GAP_BETWEEN_BRICKS,
            GAP_BETWEEN_BRICKS_AND_CEILING,
            GAP_BETWEEN_PADDLE_AND_BRICKS,
        );
        assert(columns == 8 && rows == 8);
        let first = Vec2 {
            x: LEFT_WALL + GAP_BETWEEN_BRICKS_AND_SIDES + BRICK_WIDTH / 2,
            y: BOTTOM_WALL + GAP_BETWEEN_PADDLE_AND_BRICKS + BRICK_HEIGHT / 2,
        };
        let step = Vec2 {
            x: BRICK_WIDTH + GAP_BETWEEN_BRICKS,
            y: BRICK_HEIGHT + GAP_BETWEEN_BRICKS,
        };
        let positions = brick_positions(first, step, rows, columns);
        let ghost head = colliders@;
        let mut i: usize = 0;
        while i < positions.len()
            invariant
                positions@.len() == 64,
                head.len() == 5,
                i <= positions@.len(),
                colliders@.len() == 5 + i,
                colliders@.subrange(0, 5) == head,
                forall|k: int|
                    0 <= k < i ==> colliders@[5 + k] == (Collider {
                        position: positions@[k],
                        size: Vec2 { x: BRICK_WIDTH, y: BRICK_HEIGHT },
                        kind: ColliderKind::Brick,
                    }),
            decreases positions@.len() - i,
        {
            colliders.push(
                Collider {
                    position: positions[i],
                    size: Vec2 { x: BRICK_WIDTH, y: BRICK_HEIGHT },
                    kind: ColliderKind::Brick,
                },
            );
            proof {
                assert(colliders@.subrange(0, 5) =~= head);
            }
            i += 1;
        }
        proof {
            assert(first == first_brick());
            assert(step == brick_step());
            assert(columns == brick_grid_columns());
            assert(rows == brick_grid_rows());
            assert(head =~= seq![paddle_collider(0)] + wall_colliders());
            assert(brick_grid_rows() * brick_grid_columns() == 64);
            assert(initial_bricks().len() == 64);
            assert forall|k: int| 0 <= k < 64 implies #[trigger] colliders@.subrange(5, 69)[k]
                == initial_bricks()[k] by {
                assert(colliders@[5 + k].position == positions@[k]);
            }
            assert(colliders@.subrange(5, 69) =~= initial_bricks());
            assert(colliders@ =~= colliders@.subrange(0, 5) + colliders@.subrange(5, 69));
            assert(colliders@ =~= initial_colliders());
        }
        GameState { ball, colliders, score: 0 }
    }

    /// Where the paddle's centre stands.
    pub fn paddle_x(&self) -> (x: i64)
        requires
            self.wf(),
        ensures
            x == self.colliders@[0].position.x,
    {
        self.colliders[0].position.x
    }

    /// How many bricks are left.
    pub fn live_bricks(&self) -> (n: usize)
        ensures
            n == brick_count(self.colliders@),
    {
        let ghost cs = self.colliders@;
        let mut n: usize = 0;
        let mut i: usize = 0;
        while i < self.colliders.len()
            invariant
                cs == self.colliders@,
                i <= cs.len(),
                n == brick_count(cs.take(i as int)),
                n <= i,
            decreases cs.len() - i,
        {
            proof {
                assert(cs.take(i + 1).drop_last() =~= cs.take(i as int));
            }
            if self.colliders[i].kind == ColliderKind::Brick {
                n += 1;
            }
            i += 1;
        }
        proof {
            assert(cs.take(cs.len() as int) =~= cs);
        }
        n
    }

    /// One fixed tick: the paddle moves by the held keys, the ball moves by
    /// its velocity, then the ball is tested against every collider.
    pub fn tick(&mut self, left: bool, right: bool, dt: i64) -> (report: CollisionReport)
        requires
            old(self).wf(),
            can_advance(old(self).ball.position, old(self).ball.velocity, dt as int),
        ensures
            final(self).wf(),
            final(self).ball == (Ball {
                velocity: velocity_after(
                    ball_moved(old(self).ball, dt as int),
                    with_paddle_moved(old(self).colliders@, left, right, dt as int),
                ),
                ..ball_moved(old(self).ball, dt as int)
            }),
            final(self).colliders@ == survivors(
                ball_moved(old(self).ball, dt as int),
                with_paddle_moved(old(self).colliders@, left, right, dt as int),
            ),
            report.removed@ == broken_indices(
                ball_moved(old(self).ball, dt as int),
                with_paddle_moved(old(self).colliders@, left, right, dt as int),
            ),
            report.sounds == strike_count(
                ball_moved(old(self).ball, dt as int),
                with_paddle_moved(old(self).colliders@, left, right, dt as int),
            ),
            final(self).score == old(self).score + report.removed@.len(),
    {
        let x = move_paddle(self.colliders[0].position.x, left, right, dt);
        let paddle = Collider {
            position: Vec2 { x, y: PADDLE_START_Y },
            size: Vec2 { x: PADDLE_WIDTH, y: PADDLE_HEIGHT },
            kind: ColliderKind::Paddle,
        };
        self.colliders.set(0, paddle);
        apply_velocity(&mut self.ball, dt);
        let ghost ball1 = self.ball;
        let ghost cs = self.colliders@;
        assert(cs == with_paddle_moved(old(self).colliders@, left, right, dt as int));
        let report = check_ball_collision(&mut self.ball, &mut self.colliders, &mut self.score);
        proof {
            lemma_pass_removes_struck_bricks(ball1, cs);
            lemma_survivors_keep_head(ball1, cs);
            assert forall|i: int| 1 <= i < cs.len() implies (#[trigger] cs[i]).kind
                != ColliderKind::Paddle by {
                assert(cs[i] == old(self).colliders@[i]);
            }
            lemma_survivors_tail_not_paddle(ball1, cs);
        }
        report
    }
}

} // verus!

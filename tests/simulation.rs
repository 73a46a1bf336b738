use breakout::arena::{
    BOTTOM_WALL, LEFT_WALL, PADDLE_MAX_X, PADDLE_MIN_X, PADDLE_SPEED, PADDLE_START_Y, PX,
    RIGHT_WALL, WALL_THICKNESS,
};
use breakout::{
    apply_velocity, brick_columns, brick_positions, brick_rows, check_ball_collision, collide,
    move_paddle, paddle_direction, reflect, should_close_window, walls, Ball, Collider,
    ColliderKind, Collision, GameState, Vec2,
};

fn v(x: i64, y: i64) -> Vec2 {
    Vec2::new(x, y)
}

fn brick(x: i64, y: i64, w: i64, h: i64) -> Collider {
    Collider { position: v(x, y), size: v(w, h), kind: ColliderKind::Brick }
}

fn wall(x: i64, y: i64, w: i64, h: i64) -> Collider {
    Collider { position: v(x, y), size: v(w, h), kind: ColliderKind::Wall }
}

#[test]
fn separated_rectangles_do_not_collide() {
    // apart horizontally, apart vertically, apart diagonally
    assert_eq!(collide(v(0, 0), v(10, 10), v(100, 0), v(10, 10)), None);
    assert_eq!(collide(v(0, 0), v(10, 10), v(0, -100), v(10, 10)), None);
    assert_eq!(collide(v(0, 0), v(10, 10), v(50, 50), v(20, 20)), None);
    assert_eq!(collide(v(100, 0), v(10, 10), v(0, 0), v(10, 10)), None);
}

#[test]
fn touching_edges_do_not_collide() {
    // shared vertical edge at x = 5
    assert_eq!(collide(v(0, 0), v(10, 10), v(10, 0), v(10, 10)), None);
    // shared corner at (5, 5)
    assert_eq!(collide(v(0, 0), v(10, 10), v(10, 10), v(10, 10)), None);
}

#[test]
fn entering_left_edge_of_large_rectangle_is_left() {
    // a spans x in [-10, 10], y in [-10, 10]; b spans x in [5, 1005], y in [-500, 500]
    assert_eq!(collide(v(0, 0), v(20, 20), v(505, 0), v(1000, 1000)), Some(Collision::Left));
}

#[test]
fn entering_right_edge_is_right() {
    assert_eq!(collide(v(0, 0), v(20, 20), v(-505, 0), v(1000, 1000)), Some(Collision::Right));
}

#[test]
fn shallower_horizontal_penetration_wins() {
    // a: x in [0, 20], y in [0, 20]; b: x in [18, 118], y in [10, 110]
    // x depth 2, y depth 10: the side is on the horizontal axis
    assert_eq!(collide(v(10, 10), v(20, 20), v(68, 60), v(100, 100)), Some(Collision::Left));
}

#[test]
fn shallower_vertical_penetration_wins() {
    // a: x in [0, 20], y in [0, 20]; b: x in [10, 110], y in [18, 118]
    // x depth 10, y depth 2: the side is on the vertical axis
    assert_eq!(collide(v(10, 10), v(20, 20), v(60, 68), v(100, 100)), Some(Collision::Bottom));
    // and from above
    assert_eq!(collide(v(10, 10), v(20, 20), v(60, -48), v(100, 100)), Some(Collision::Top));
}

#[test]
fn equal_penetration_goes_to_horizontal_axis() {
    // x depth 5, y depth 5
    assert_eq!(collide(v(10, 10), v(20, 20), v(65, 65), v(100, 100)), Some(Collision::Left));
}

#[test]
fn contained_rectangle_is_inside() {
    assert_eq!(collide(v(0, 0), v(10, 10), v(0, 0), v(100, 100)), Some(Collision::Inside));
}

#[test]
fn odd_sizes_are_exact() {
    // a: x in [-1.5, 1.5]; b: x in [1, 3]: overlap of half a unit
    assert_eq!(collide(v(0, 0), v(3, 3), v(2, 0), v(2, 10)), Some(Collision::Left));
    // a: x in [-1.5, 1.5]; b: x in [1.5, 2.5]: they only touch
    assert_eq!(collide(v(0, 0), v(3, 3), v(2, 0), v(1, 10)), None);
}

#[test]
fn left_strike_while_moving_left_does_not_reflect() {
    assert_eq!(reflect(v(-200, 50), Collision::Left), v(-200, 50));
    assert_eq!(reflect(v(0, 50), Collision::Left), v(0, 50));
}

#[test]
fn strikes_reflect_when_moving_into_the_side() {
    assert_eq!(reflect(v(200, 50), Collision::Left), v(-200, 50));
    assert_eq!(reflect(v(-200, 50), Collision::Right), v(200, 50));
    assert_eq!(reflect(v(30, -200), Collision::Top), v(30, 200));
    assert_eq!(reflect(v(30, 200), Collision::Bottom), v(30, -200));
    assert_eq!(reflect(v(30, 200), Collision::Top), v(30, 200));
    assert_eq!(reflect(v(30, 200), Collision::Inside), v(30, 200));
}

#[test]
fn striking_a_brick_removes_it_and_scores() {
    let mut ball = Ball { position: v(0, 0), size: v(20, 20), velocity: v(0, 100) };
    let mut colliders = vec![brick(0, 25, 100, 40), brick(500, 500, 100, 40)];
    let mut score: usize = 3;
    let report = check_ball_collision(&mut ball, &mut colliders, &mut score);
    assert_eq!(score, 4);
    assert_eq!(colliders.len(), 1);
    assert_eq!(colliders[0], brick(500, 500, 100, 40));
    assert_eq!(report.removed, vec![0]);
    assert_eq!(report.sounds, 1);
    assert_eq!(ball.velocity, v(0, -100));
}

#[test]
fn striking_a_wall_keeps_bricks_and_score() {
    let mut ball = Ball { position: v(0, 0), size: v(20, 20), velocity: v(0, 100) };
    let mut colliders = vec![wall(0, 25, 100, 40), brick(500, 500, 100, 40)];
    let mut score: usize = 3;
    let report = check_ball_collision(&mut ball, &mut colliders, &mut score);
    assert_eq!(score, 3);
    assert_eq!(colliders.len(), 2);
    assert!(report.removed.is_empty());
    assert_eq!(report.sounds, 1);
    assert_eq!(ball.velocity, v(0, -100));
}

#[test]
fn two_strikes_in_one_pass_both_apply() {
    // the ball overlaps a brick above and a wall to its right
    let mut ball = Ball { position: v(0, 0), size: v(20, 20), velocity: v(100, 100) };
    let mut colliders = vec![brick(0, 25, 100, 40), wall(25, 0, 40, 100)];
    let mut score: usize = 0;
    let report = check_ball_collision(&mut ball, &mut colliders, &mut score);
    assert_eq!(ball.velocity, v(-100, -100));
    assert_eq!(report.sounds, 2);
    assert_eq!(score, 1);
    assert_eq!(colliders, vec![wall(25, 0, 40, 100)]);
}

#[test]
fn paddle_driven_left_stops_at_its_bound() {
    let dt: i64 = 15_625;
    let mut x: i64 = 0;
    let mut ticks = 0;
    while x != PADDLE_MIN_X {
        x = move_paddle(x, true, false, dt);
        assert!(x >= PADDLE_MIN_X);
        ticks += 1;
        assert!(ticks < 1000);
    }
    for _ in 0..10 {
        x = move_paddle(x, true, false, dt);
        assert_eq!(x, PADDLE_MIN_X);
    }
    assert_eq!(PADDLE_MIN_X, LEFT_WALL + WALL_THICKNESS / 2 + 60 * PX);
}

#[test]
fn paddle_moves_by_speed_times_dt() {
    assert_eq!(move_paddle(0, false, true, 1000), PADDLE_SPEED * 1000);
    assert_eq!(move_paddle(0, true, false, 1000), -PADDLE_SPEED * 1000);
    assert_eq!(move_paddle(1234, true, true, 1000), 1234);
    assert_eq!(move_paddle(1234, false, false, 1000), 1234);
    assert_eq!(move_paddle(PADDLE_MAX_X - 10, false, true, 1000), PADDLE_MAX_X);
}

#[test]
fn held_keys_add_up() {
    assert_eq!(paddle_direction(true, false), -1);
    assert_eq!(paddle_direction(false, true), 1);
    assert_eq!(paddle_direction(true, true), 0);
    assert_eq!(paddle_direction(false, false), 0);
}

#[test]
fn ball_moving_down_from_brick_after_one_tick() {
    let mut ball = Ball {
        position: v(0, -50 * PX),
        size: v(30 * PX, 30 * PX),
        velocity: v(200, -200),
    };
    // one tick of 0.1 s
    apply_velocity(&mut ball, 100_000);
    assert_eq!(ball.position, v(20 * PX, -70 * PX));
    let mut colliders = vec![brick(0, -20 * PX, 100 * PX, 30 * PX)];
    let mut score: usize = 0;
    let report = check_ball_collision(&mut ball, &mut colliders, &mut score);
    // the ball spans y in [-85, -55] and the brick [-35, -5]: they do not meet
    assert_eq!(report.sounds, 0);
    assert_eq!(score, 0);
    assert_eq!(colliders.len(), 1);
    assert_eq!(ball.velocity, v(200, -200));
}

#[test]
fn ball_rising_into_brick_from_below() {
    let mut ball = Ball {
        position: v(0, -50 * PX),
        size: v(30 * PX, 30 * PX),
        velocity: v(200, 200),
    };
    apply_velocity(&mut ball, 100_000);
    assert_eq!(ball.position, v(20 * PX, -30 * PX));
    let mut colliders = vec![brick(0, -20 * PX, 100 * PX, 30 * PX)];
    let mut score: usize = 0;
    let report = check_ball_collision(&mut ball, &mut colliders, &mut score);
    assert_eq!(report.sounds, 1);
    assert_eq!(report.removed, vec![0]);
    assert_eq!(ball.velocity, v(200, -200));
    assert_eq!(score, 1);
    assert!(colliders.is_empty());
}

#[test]
fn brick_columns_fill_the_width() {
    assert_eq!(brick_columns(900, 100, 5, 20), 8);
    assert_eq!(brick_columns(900 * PX, 100 * PX, 5 * PX, 20 * PX), 8);
}

#[test]
fn brick_rows_fill_the_height() {
    // (600 - 20 - 270) / 35 = 8.86
    assert_eq!(brick_rows(600, 30, 5, 20, 270), 8);
}

#[test]
fn no_room_means_no_bricks() {
    assert_eq!(brick_columns(30, 100, 5, 20), 0);
    assert_eq!(brick_columns(240, 100, 5, 20), 1);
    assert_eq!(brick_rows(100, 30, 5, 20, 270), 0);
}

#[test]
fn brick_grid_is_row_by_row() {
    let p = brick_positions(v(10, 20), v(105, 35), 2, 3);
    assert_eq!(
        p,
        vec![v(10, 20), v(115, 20), v(220, 20), v(10, 55), v(115, 55), v(220, 55)]
    );
    assert!(brick_positions(v(10, 20), v(105, 35), 0, 3).is_empty());
}

#[test]
fn walls_close_the_arena() {
    let w = walls();
    assert_eq!(w.len(), 4);
    assert_eq!(w[0].position, v(LEFT_WALL, 0));
    assert_eq!(w[1].position, v(RIGHT_WALL, 0));
    assert_eq!(w[3].position, v(0, BOTTOM_WALL));
    assert_eq!(w[0].size, v(10 * PX, 610 * PX));
    assert_eq!(w[2].size, v(910 * PX, 10 * PX));
    assert!(w.iter().all(|c| c.kind == ColliderKind::Wall));
}

#[test]
fn new_game_lays_out_the_arena() {
    let g = GameState::new();
    assert_eq!(g.score, 0);
    assert_eq!(g.colliders.len(), 1 + 4 + 64);
    assert_eq!(g.live_bricks(), 64);
    assert_eq!(g.paddle_x(), 0);
    assert_eq!(g.colliders[0].position, v(0, PADDLE_START_Y));
    assert_eq!(g.ball.position, v(0, -50 * PX));
    assert_eq!(g.ball.velocity, v(200, -200));
    // bottom-left brick, then its right neighbour, then the first of the next row
    assert_eq!(g.colliders[5].position, v(-380 * PX, -15 * PX));
    assert_eq!(g.colliders[6].position, v(-275 * PX, -15 * PX));
    assert_eq!(g.colliders[13].position, v(-380 * PX, 20 * PX));
}

#[test]
fn ticks_keep_score_and_bricks_in_step() {
    let mut g = GameState::new();
    let total = g.live_bricks() + g.score;
    let mut sounds = 0;
    for _ in 0..2000 {
        let report = g.tick(false, true, 15_625);
        sounds += report.sounds;
        assert_eq!(g.live_bricks() + g.score, total);
        assert!(g.paddle_x() >= PADDLE_MIN_X && g.paddle_x() <= PADDLE_MAX_X);
        assert_eq!(g.colliders[0].kind, ColliderKind::Paddle);
    }
    assert!(sounds > 0);
    assert!(g.score > 0);
    assert_eq!(g.paddle_x(), PADDLE_MAX_X);
}

#[test]
fn first_ticks_move_ball_and_paddle() {
    let mut g = GameState::new();
    let report = g.tick(true, false, 10_000);
    assert_eq!(report.sounds, 0);
    assert_eq!(g.ball.position, v(2 * PX, -52 * PX));
    assert_eq!(g.paddle_x(), -5 * PX);
}

#[test]
fn window_closes_on_escape_when_focused() {
    assert!(should_close_window(true, true));
    assert!(!should_close_window(false, true));
    assert!(!should_close_window(true, false));
}

use crate::arena::{BOTTOM_WALL, LEFT_WALL, RIGHT_WALL, TOP_WALL, WALL_THICKNESS};
use crate::entities::{Collider, ColliderKind};
use crate::geometry::Vec2;
use vstd::arithmetic::div_mod::lemma_fundamental_div_mod_converse;
use vstd::prelude::*;

verus! {

/// How many bricks of extent `extent`, each followed by `gap`, fit in a
/// stretch of length `available`; none where there is no room.
pub open spec fn fitting_count(available: int, extent: int, gap: int) -> int {
    if available <= 0 {
        0
    } else {
        available / (extent + gap)
    }
}

fn count_along(available: i64, extent: i64, gap: i64) -> (n: i64)
    requires
        extent + gap > 0,
    ensures
        n == fitting_count(available as int, extent as int, gap as int),
        0 <= n <= i64::MAX,
{
    if available <= 0 {
        0
    } else {
        let step: i128 = extent as i128 + gap as i128;
        let n: i128 = (available as i128) / step;
        assert(n <= available) by (nonlinear_arith)
            requires
                n == available as int / step as int,
                step >= 1,
                available > 0,
        ;
        n as i64
    }
}

/// Brick columns that fit across an arena `arena_width` wide, keeping
/// `side_margin` free at both sides.
pub fn brick_columns(arena_width: i64, brick_width: i64, gap: i64, side_margin: i64) -> (n: i64)
    requires
        brick_width + gap > 0,
        i64::MIN <= arena_width - 2 * side_margin <= i64::MAX,
    ensures
        n == fitting_count(arena_width - 2 * side_margin, brick_width as int, gap as int),
{
    let available = (arena_width as i128 - 2 * (side_margin as i128)) as i64;
    count_along(available, brick_width, gap)
}

/// Brick rows that fit in an arena `arena_height` high, keeping
/// `ceiling_gap` free at the top and `paddle_gap` free above the paddle.
pub fn brick_rows(
    arena_height: i64,
    brick_height: i64,
    gap: i64,
    ceiling_gap: i64,
    paddle_gap: i64,
) -> (n: i64)
    requires
        brick_height + gap > 0,
        i64::MIN <= arena_height - ceiling_gap - paddle_gap <= i64::MAX,
    ensures
        n == fitting_count(arena_height - ceiling_gap - paddle_gap, brick_height as int, gap as int),
{
    let available = (arena_height as i128 - ceiling_gap as i128 - paddle_gap as i128) as i64;
    count_along(available, brick_height, gap)
}

/// The centre of the `k`-th brick of a grid laid out row by row, `columns`
/// to a row, starting at `first` and `step` apart.
pub open spec fn grid_cell(first: Vec2, step: Vec2, columns: int, k: int) -> Vec2 {
    Vec2 {
        x: (first.x + (k % columns) * step.x) as i64,
        y: (first.y + (k / columns) * step.y) as i64,
    }
}

/// A grid of `rows` by `columns` stays within `i64` and within memory.
pub open spec fn grid_fits(first: Vec2, step: Vec2, rows: int, columns: int) -> bool {
    &&& 0 <= rows
    &&& 0 <= columns
    &&& 0 <= step.x
    &&& 0 <= step.y
    &&& first.x + columns * step.x <= i64::MAX
    &&& first.y + rows * step.y <= i64::MAX
    &&& rows * columns <= usize::MAX
}

proof fn lemma_scaled_below(i: int, n: int, s: int)
    requires
        0 <= i < n,
        0 <= s,
    ensures
        0 <= i * s <= n * s,
{
    assert(0 <= i * s <= n * s) by (nonlinear_arith)
        requires
            0 <= i < n,
            0 <= s,
    ;
}

/// The centres of a grid of bricks, row by row from `first`, `step` apart.
pub fn brick_positions(first: Vec2, step: Vec2, rows: i64, columns: i64) -> (r: Vec<Vec2>)
    requires
        grid_fits(first, step, rows as int, columns as int),
    ensures
        r@.len() == rows * columns,
        forall|k: int| 0 <= k < r@.len() ==> r@[k] == grid_cell(first, step, columns as int, k),
{
    let mut r: Vec<Vec2> = Vec::new();
    let mut row: i64 = 0;
    while row < rows
        invariant
            grid_fits(first, step, rows as int, columns as int),
            0 <= row <= rows,
            r@.len() == row * columns,
            forall|k: int| 0 <= k < r@.len() ==> r@[k] == grid_cell(first, step, columns as int, k),
        decreases rows - row,
    {
        proof {
            lemma_scaled_below(row as int, rows as int, step.y as int);
        }
        let y: i64 = (first.y as i128 + (row as i128) * (step.y as i128)) as i64;
        let mut column: i64 = 0;
        while column < columns
            invariant
                grid_fits(first, step, rows as int, columns as int),
                0 <= row < rows,
                0 <= column <= columns,
                y == first.y + row * step.y,
                r@.len() == row * columns + column,
                forall|k: int|
                    0 <= k < r@.len() ==> r@[k] == grid_cell(first, step, columns as int, k),
            decreases columns - column,
        {
            proof {
                lemma_scaled_below(column as int, columns as int, step.x as int);
                lemma_fundamental_div_mod_converse(
                    row * columns + column,
                    columns as int,
                    row as int,
                    column as int,
                );
                assert(row * columns + column < rows * columns) by (nonlinear_arith)
                    requires
                        0 <= row < rows,
                        0 <= column < columns,
                ;
            }
            let x: i64 = (first.x as i128 + (column as i128) * (step.x as i128)) as i64;
            r.push(Vec2 { x, y });
            column += 1;
        }
        assert((row + 1) * columns == row * columns + columns) by (nonlinear_arith);
        row += 1;
    }
    r
}

/// Extent of the left and right walls.
pub open spec fn side_wall_size() -> Vec2 {
    Vec2 { x: WALL_THICKNESS, y: (TOP_WALL - BOTTOM_WALL + WALL_THICKNESS) as i64 }
}

/// Extent of the top and bottom walls.
pub open spec fn end_wall_size() -> Vec2 {
    Vec2 { x: (RIGHT_WALL - LEFT_WALL + WALL_THICKNESS) as i64, y: WALL_THICKNESS }
}

/// The four walls: left, right, top, bottom.
pub open spec fn wall_colliders() -> Seq<Collider> {
    seq![
        Collider { position: Vec2 { x: LEFT_WALL, y: 0 }, size: side_wall_size(), kind: ColliderKind::Wall },
        Collider { position: Vec2 { x: RIGHT_WALL, y: 0 }, size: side_wall_size(), kind: ColliderKind::Wall },
        Collider { position: Vec2 { x: 0, y: TOP_WALL }, size: end_wall_size(), kind: ColliderKind::Wall },
        Collider { position: Vec2 { x: 0, y: BOTTOM_WALL }, size: end_wall_size(), kind: ColliderKind::Wall },
    ]
}

/// The four walls that close the arena, each as thick as `WALL_THICKNESS`
/// and reaching to the outer corners.
pub fn walls() -> (r: Vec<Collider>)
    ensures
        r@ == wall_colliders(),
{
    let side = Vec2 { x: WALL_THICKNESS, y: TOP_WALL - BOTTOM_WALL + WALL_THICKNESS };
    let end = Vec2 { x: RIGHT_WALL - LEFT_WALL + WALL_THICKNESS, y: WALL_THICKNESS };
    let r = vec![
        Collider { position: Vec2 { x: LEFT_WALL, y: 0 }, size: side, kind: ColliderKind::Wall },
        Collider { position: Vec2 { x: RIGHT_WALL, y: 0 }, size: side, kind: ColliderKind::Wall },
        Collider { position: Vec2 { x: 0, y: TOP_WALL }, size: end, kind: ColliderKind::Wall },
        Collider { position: Vec2 { x: 0, y: BOTTOM_WALL }, size: end, kind: ColliderKind::Wall },
    ];
    assert(r@ =~= wall_colliders());
    r
}

} // verus!

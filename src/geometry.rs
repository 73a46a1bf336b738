use vstd::prelude::*;

verus! {

/// A point, an extent or a velocity in the plane.
#[derive(Clone, Copy, Debug, PartialEq, Eq, Structural)]
pub struct Vec2 {
    pub x: i64,
    pub y: i64,
}

impl Vec2 {
    pub fn new(x: i64, y: i64) -> (r: Vec2)
        ensures
            r.x == x,
            r.y == y,
    {
        Vec2 { x, y }
    }
}

/// The side of the struck rectangle that a moving rectangle entered by.
#[derive(Clone, Copy, Debug, PartialEq, Eq, Structural)]
pub enum Collision {
    Left,
    Right,
    Top,
    Bottom,
    Inside,
}

/// Twice the lower edge of the span centred on `c` with extent `s`.
/// Edges are kept doubled so that odd extents stay exact.
pub open spec fn lower2(c: int, s: int) -> int {
    2 * c - s
}

/// Twice the upper edge of the span centred on `c` with extent `s`.
pub open spec fn upper2(c: int, s: int) -> int {
    2 * c + s
}

/// Two open spans share a stretch of positive length.
pub open spec fn spans_overlap(a_lo: int, a_hi: int, b_lo: int, b_hi: int) -> bool {
    a_lo < b_hi && a_hi > b_lo
}

/// Span `a` reaches across the lower edge of span `b` and ends inside it.
pub open spec fn straddles_lower(a_lo: int, a_hi: int, b_lo: int, b_hi: int) -> bool {
    a_lo < b_lo && a_hi > b_lo && a_hi < b_hi
}

/// Span `a` starts inside span `b` and reaches across its upper edge.
pub open spec fn straddles_upper(a_lo: int, a_hi: int, b_lo: int, b_hi: int) -> bool {
    a_lo > b_lo && a_lo < b_hi && a_hi > b_hi
}

/// How deep `a` has entered `b` along one axis, or `None` where it straddles
/// neither edge, which counts as an unbounded depth.
pub open spec fn axis_depth(a_lo: int, a_hi: int, b_lo: int, b_hi: int) -> Option<int> {
    if straddles_lower(a_lo, a_hi, b_lo, b_hi) {
        Some(a_hi - b_lo)
    } else if straddles_upper(a_lo, a_hi, b_lo, b_hi) {
        Some(b_hi - a_lo)
    } else {
        None
    }
}

/// The side of `b` that `a` entered by along the horizontal axis.
pub open spec fn x_side(a_lo: int, a_hi: int, b_lo: int, b_hi: int) -> Collision {
    if straddles_lower(a_lo, a_hi, b_lo, b_hi) {
        Collision::Left
    } else if straddles_upper(a_lo, a_hi, b_lo, b_hi) {
        Collision::Right
    } else {
        Collision::Inside
    }
}

/// The side of `b` that `a` entered by along the vertical axis.
pub open spec fn y_side(a_lo: int, a_hi: int, b_lo: int, b_hi: int) -> Collision {
    if straddles_lower(a_lo, a_hi, b_lo, b_hi) {
        Collision::Bottom
    } else if straddles_upper(a_lo, a_hi, b_lo, b_hi) {
        Collision::Top
    } else {
        Collision::Inside
    }
}

/// The vertical axis decides the side only where it is strictly shallower.
pub open spec fn y_is_primary(x_depth: Option<int>, y_depth: Option<int>) -> bool {
    match y_depth {
        None => false,
        Some(dy) => match x_depth {
            None => true,
            Some(dx) => dy < dx,
        },
    }
}

/// Rectangle `a` (centre `a_pos`, extent `a_size`) and rectangle `b` overlap
/// with positive area.
pub open spec fn rects_overlap(a_pos: Vec2, a_size: Vec2, b_pos: Vec2, b_size: Vec2) -> bool {
    &&& spans_overlap(
        lower2(a_pos.x as int, a_size.x as int),
        upper2(a_pos.x as int, a_size.x as int),
        lower2(b_pos.x as int, b_size.x as int),
        upper2(b_pos.x as int, b_size.x as int),
    )
    &&& spans_overlap(
        lower2(a_pos.y as int, a_size.y as int),
        upper2(a_pos.y as int, a_size.y as int),
        lower2(b_pos.y as int, b_size.y as int),
        upper2(b_pos.y as int, b_size.y as int),
    )
}

/// What `collide` reports for rectangle `a` against rectangle `b`.
pub open spec fn collision_of(a_pos: Vec2, a_size: Vec2, b_pos: Vec2, b_size: Vec2) -> Option<
    Collision,
> {
    let ax0 = lower2(a_pos.x as int, a_size.x as int);
    let ax1 = upper2(a_pos.x as int, a_size.x as int);
    let ay0 = lower2(a_pos.y as int, a_size.y as int);
    let ay1 = upper2(a_pos.y as int, a_size.y as int);
    let bx0 = lower2(b_pos.x as int, b_size.x as int);
    let bx1 = upper2(b_pos.x as int, b_size.x as int);
    let by0 = lower2(b_pos.y as int, b_size.y as int);
    let by1 = upper2(b_pos.y as int, b_size.y as int);
    if rects_overlap(a_pos, a_size, b_pos, b_size) {
        if y_is_primary(axis_depth(ax0, ax1, bx0, bx1), axis_depth(ay0, ay1, by0, by1)) {
            Some(y_side(ay0, ay1, by0, by1))
        } else {
            Some(x_side(ax0, ax1, bx0, bx1))
        }
    } else {
        None
    }
}

/// Entry along one axis: `Some((true, d))` where `a` straddles the lower edge
/// of `b`, `Some((false, d))` where it straddles the upper edge, with `d` the
/// depth; `None` otherwise.
fn axis_entry(a_lo: i128, a_hi: i128, b_lo: i128, b_hi: i128) -> (r: Option<(bool, i128)>)
    requires
        -0x4000_0000_0000_0000_0000 < a_lo < 0x4000_0000_0000_0000_0000,
        -0x4000_0000_0000_0000_0000 < a_hi < 0x4000_0000_0000_0000_0000,
        -0x4000_0000_0000_0000_0000 < b_lo < 0x4000_0000_0000_0000_0000,
        -0x4000_0000_0000_0000_0000 < b_hi < 0x4000_0000_0000_0000_0000,
    ensures
        match r {
            Some((lower, d)) => {
                &&& lower == straddles_lower(a_lo as int, a_hi as int, b_lo as int, b_hi as int)
                &&& axis_depth(a_lo as int, a_hi as int, b_lo as int, b_hi as int) == Some(
                    d as int,
                )
            },
            None => axis_depth(a_lo as int, a_hi as int, b_lo as int, b_hi as int) is None,
        },
{
    if a_lo < b_lo && a_hi > b_lo && a_hi < b_hi {
        Some((true, a_hi - b_lo))
    } else if a_lo > b_lo && a_lo < b_hi && a_hi > b_hi {
        Some((false, b_hi - a_lo))
    } else {
        None
    }
}

/// Tests rectangle `a` (centre `a_pos`, extent `a_size`) against rectangle
/// `b`. Returns `None` unless they overlap with positive area; otherwise the
/// side of `b` that `a` entered by, taken from the axis of shallower
/// penetration, with ties going to the horizontal axis.
pub fn collide(a_pos: Vec2, a_size: Vec2, b_pos: Vec2, b_size: Vec2) -> (r: Option<Collision>)
    ensures
        r == collision_of(a_pos, a_size, b_pos, b_size),
{
    let a_min_x: i128 = 2 * (a_pos.x as i128) - a_size.x as i128;
    let a_max_x: i128 = 2 * (a_pos.x as i128) + a_size.x as i128;
    let a_min_y: i128 = 2 * (a_pos.y as i128) - a_size.y as i128;
    let a_max_y: i128 = 2 * (a_pos.y as i128) + a_size.y as i128;
    let b_min_x: i128 = 2 * (b_pos.x as i128) - b_size.x as i128;
    let b_max_x: i128 = 2 * (b_pos.x as i128) + b_size.x as i128;
    let b_min_y: i128 = 2 * (b_pos.y as i128) - b_size.y as i128;
    let b_max_y: i128 = 2 * (b_pos.y as i128) + b_size.y as i128;

    if a_min_x < b_max_x && a_max_x > b_min_x && a_min_y < b_max_y && a_max_y > b_min_y {
        let x_entry = axis_entry(a_min_x, a_max_x, b_min_x, b_max_x);
        let y_entry = axis_entry(a_min_y, a_max_y, b_min_y, b_max_y);
        let x_collision = match x_entry {
            Some((true, _)) => Collision::Left,
            Some((false, _)) => Collision::Right,
            None => Collision::Inside,
        };
        let y_collision = match y_entry {
            Some((true, _)) => Collision::Bottom,
            Some((false, _)) => Collision::Top,
            None => Collision::Inside,
        };
        // the shallower penetration names the side; an axis straddling no
        // edge is infinitely deep and never wins
        let y_primary = match (x_entry, y_entry) {
            (_, None) => false,
            (None, Some(_)) => true,
            (Some((_, x_depth)), Some((_, y_depth))) => y_depth < x_depth,
        };
        if y_primary {
            Some(y_collision)
        } else {
            Some(x_collision)
        }
    } else {
        None
    }
}


/// The two rectangles lie apart, or only touch, along some axis.
pub open spec fn rects_separated(a_pos: Vec2, a_size: Vec2, b_pos: Vec2, b_size: Vec2) -> bool {
    ||| upper2(a_pos.x as int, a_size.x as int) <= lower2(b_pos.x as int, b_size.x as int)
    ||| upper2(b_pos.x as int, b_size.x as int) <= lower2(a_pos.x as int, a_size.x as int)
    ||| upper2(a_pos.y as int, a_size.y as int) <= lower2(b_pos.y as int, b_size.y as int)
    ||| upper2(b_pos.y as int, b_size.y as int) <= lower2(a_pos.y as int, a_size.y as int)
}

/// Rectangles that lie apart, or share no more than an edge or a corner,
/// never collide.
pub proof fn lemma_separated_rects_do_not_collide(
    a_pos: Vec2,
    a_size: Vec2,
    b_pos: Vec2,
    b_size: Vec2,
)
    requires
        rects_separated(a_pos, a_size, b_pos, b_size),
    ensures
        collision_of(a_pos, a_size, b_pos, b_size) is None,
{
}

/// A rectangle that reaches across the left edge of another, and lies within
/// its height, has struck that left edge.
pub proof fn lemma_left_edge_entry(a_pos: Vec2, a_size: Vec2, b_pos: Vec2, b_size: Vec2)
    requires
        lower2(a_pos.x as int, a_size.x as int) < lower2(b_pos.x as int, b_size.x as int),
        lower2(b_pos.x as int, b_size.x as int) < upper2(a_pos.x as int, a_size.x as int),
        upper2(a_pos.x as int, a_size.x as int) < upper2(b_pos.x as int, b_size.x as int),
        lower2(b_pos.y as int, b_size.y as int) <= lower2(a_pos.y as int, a_size.y as int),
        upper2(a_pos.y as int, a_size.y as int) <= upper2(b_pos.y as int, b_size.y as int),
        a_size.y > 0,
    ensures
        collision_of(a_pos, a_size, b_pos, b_size) == Some(Collision::Left),
{
}

/// Where a rectangle straddles an edge of another along both axes, the side
/// reported lies on the axis of shallower penetration: the horizontal one
/// when it is no deeper, the vertical one when it is strictly shallower.
pub proof fn lemma_shallower_axis_decides(a_pos: Vec2, a_size: Vec2, b_pos: Vec2, b_size: Vec2)
    requires
        axis_depth(
            lower2(a_pos.x as int, a_size.x as int),
            upper2(a_pos.x as int, a_size.x as int),
            lower2(b_pos.x as int, b_size.x as int),
            upper2(b_pos.x as int, b_size.x as int),
        ) is Some,
        axis_depth(
            lower2(a_pos.y as int, a_size.y as int),
            upper2(a_pos.y as int, a_size.y as int),
            lower2(b_pos.y as int, b_size.y as int),
            upper2(b_pos.y as int, b_size.y as int),
        ) is Some,
    ensures
        ({
            let dx = axis_depth(
                lower2(a_pos.x as int, a_size.x as int),
                upper2(a_pos.x as int, a_size.x as int),
                lower2(b_pos.x as int, b_size.x as int),
                upper2(b_pos.x as int, b_size.x as int),
            )->Some_0;
            let dy = axis_depth(
                lower2(a_pos.y as int, a_size.y as int),
                upper2(a_pos.y as int, a_size.y as int),
                lower2(b_pos.y as int, b_size.y as int),
                upper2(b_pos.y as int, b_size.y as int),
            )->Some_0;
            let r = collision_of(a_pos, a_size, b_pos, b_size);
            &&& dx <= dy ==> (r == Some(Collision::Left) || r == Some(Collision::Right))
            &&& dy < dx ==> (r == Some(Collision::Bottom) || r == Some(Collision::Top))
        }),
{
}

} // verus!

//! Where a point lies relative to a rectangle, contact normals, push-out
//! vectors and reflection across a contact normal.
use vstd::prelude::*;

use crate::geometry::{fits, Rect, Vec2};

verus! {

/// -1, 0 or 1 by the sign of `v`.
pub open spec fn sign(v: int) -> int {
    if v < 0 {
        -1
    } else if v > 0 {
        1
    } else {
        0
    }
}

pub open spec fn abs(v: int) -> int {
    if v < 0 {
        -v
    } else {
        v
    }
}

/// One of the nine zones around a rectangle: inside, an edge or a corner.
#[derive(Clone, Copy, Debug, PartialEq, Eq, Structural)]
pub enum RectSegment {
    Middle,
    Left,
    Right,
    Up,
    Down,
    UpperLeft,
    UpperRight,
    LowerLeft,
    LowerRight,
}

impl RectSegment {
    /// The horizontal component of the zone: -1 left, 1 right, 0 neither.
    pub open spec fn sx(self) -> int {
        match self {
            RectSegment::Left | RectSegment::UpperLeft | RectSegment::LowerLeft => -1,
            RectSegment::Right | RectSegment::UpperRight | RectSegment::LowerRight => 1,
            _ => 0,
        }
    }

    /// The vertical component of the zone: -1 down, 1 up, 0 neither.
    pub open spec fn sy(self) -> int {
        match self {
            RectSegment::Down | RectSegment::LowerLeft | RectSegment::LowerRight => -1,
            RectSegment::Up | RectSegment::UpperLeft | RectSegment::UpperRight => 1,
            _ => 0,
        }
    }

    /// The zone with the given horizontal and vertical components.
    pub open spec fn from_signs(sx: int, sy: int) -> RectSegment {
        if sx < 0 {
            if sy < 0 {
                RectSegment::LowerLeft
            } else if sy > 0 {
                RectSegment::UpperLeft
            } else {
                RectSegment::Left
            }
        } else if sx > 0 {
            if sy < 0 {
                RectSegment::LowerRight
            } else if sy > 0 {
                RectSegment::UpperRight
            } else {
                RectSegment::Right
            }
        } else {
            if sy < 0 {
                RectSegment::Down
            } else if sy > 0 {
                RectSegment::Up
            } else {
                RectSegment::Middle
            }
        }
    }

    pub fn from_sign_pair(sx: i8, sy: i8) -> (r: RectSegment)
        ensures
            r == RectSegment::from_signs(sx as int, sy as int),
            r.sx() == sign(sx as int),
            r.sy() == sign(sy as int),
    {
        if sx < 0 {
            if sy < 0 {
                RectSegment::LowerLeft
            } else if sy > 0 {
                RectSegment::UpperLeft
            } else {
                RectSegment::Left
            }
        } else if sx > 0 {
            if sy < 0 {
                RectSegment::LowerRight
            } else if sy > 0 {
                RectSegment::UpperRight
            } else {
                RectSegment::Right
            }
        } else {
            if sy < 0 {
                RectSegment::Down
            } else if sy > 0 {
                RectSegment::Up
            } else {
                RectSegment::Middle
            }
        }
    }

    /// The direction of the zone's outward normal: each component is -1, 0
    /// or 1. The unit normal is this vector divided by its length, which is
    /// 1 for an edge and the square root of 2 for a corner; inside the
    /// rectangle there is no normal and the vector is zero.
    pub fn normal(&self) -> (r: Vec2)
        ensures
            r.x == self.sx(),
            r.y == self.sy(),
    {
        match *self {
            RectSegment::Middle => Vec2 { x: 0, y: 0 },
            RectSegment::Left => Vec2 { x: -1, y: 0 },
            RectSegment::Right => Vec2 { x: 1, y: 0 },
            RectSegment::Up => Vec2 { x: 0, y: 1 },
            RectSegment::Down => Vec2 { x: 0, y: -1 },
            RectSegment::UpperLeft => Vec2 { x: -1, y: 1 },
            RectSegment::UpperRight => Vec2 { x: 1, y: 1 },
            RectSegment::LowerLeft => Vec2 { x: -1, y: -1 },
            RectSegment::LowerRight => Vec2 { x: 1, y: -1 },
        }
    }
}

/// Where a coordinate lies against the interval `[lo, hi]`: -1 below, 1
/// above, 0 inside.
pub open spec fn outside_sign(v: int, lo: int, hi: int) -> int {
    if v < lo {
        -1
    } else if v > hi {
        1
    } else {
        0
    }
}

fn outside_sign_exec(v: i32, lo: i32, hi: i32) -> (r: i8)
    ensures
        r == outside_sign(v as int, lo as int, hi as int),
{
    if v < lo {
        -1
    } else if v > hi {
        1
    } else {
        0
    }
}

/// The zone of `from` against the edges of `rect`; `Middle` means that
/// `from` lies within the rectangle.
pub fn rect_outer_seg(rect: Rect, from: Vec2) -> (r: RectSegment)
    ensures
        r.sx() == outside_sign(from.x as int, rect.min.x as int, rect.max.x as int),
        r.sy() == outside_sign(from.y as int, rect.min.y as int, rect.max.y as int),
        (r == RectSegment::Middle) <==> (rect.min.x <= from.x <= rect.max.x && rect.min.y
            <= from.y <= rect.max.y),
{
    let sx = outside_sign_exec(from.x, rect.min.x, rect.max.x);
    let sy = outside_sign_exec(from.y, rect.min.y, rect.max.y);
    RectSegment::from_sign_pair(sx, sy)
}

fn sign_exec(v: i64) -> (r: i8)
    ensures
        r == sign(v as int),
{
    if v < 0 {
        -1
    } else if v > 0 {
        1
    } else {
        0
    }
}

/// The zone of `from` against the center of `rect`.
pub fn rect_seg_from_center(rect: Rect, from: Vec2) -> (r: RectSegment)
    requires
        rect.wf(),
    ensures
        r.sx() == sign(from.x - rect.cx()),
        r.sy() == sign(from.y - rect.cy()),
{
    let center = rect.center();
    let sx = sign_exec(from.x as i64 - center.x as i64);
    let sy = sign_exec(from.y as i64 - center.y as i64);
    RectSegment::from_sign_pair(sx, sy)
}

/// The zone whose normal `from` approaches `rect` along: the zone against
/// the center, cut down to one axis where the offset from the center,
/// measured in half-sizes, is larger on that axis. Equal offsets keep the
/// corner.
pub open spec fn normal_segment(rect: Rect, from: Vec2) -> RectSegment {
    let dx = from.x - rect.cx();
    let dy = from.y - rect.cy();
    let ax = abs(dx) * rect.hh();
    let ay = abs(dy) * rect.hw();
    if ax > ay {
        RectSegment::from_signs(sign(dx), 0)
    } else if ax < ay {
        RectSegment::from_signs(0, sign(dy))
    } else {
        RectSegment::from_signs(sign(dx), sign(dy))
    }
}

proof fn lemma_product_bound(a: int, b: int)
    requires
        0 <= a <= 0xffff_ffff,
        0 <= b <= 0x7fff_ffff,
    ensures
        0 <= a * b <= i64::MAX,
{
    assert(0 <= a * b <= 0xffff_ffff * 0x7fff_ffff) by (nonlinear_arith)
        requires
            0 <= a <= 0xffff_ffff,
            0 <= b <= 0x7fff_ffff,
    ;
}

/// The contact zone of `from` against `rect`, see `normal_segment`.
pub fn rect_seg_normal(rect: Rect, from: Vec2) -> (r: RectSegment)
    requires
        rect.wf(),
    ensures
        r == normal_segment(rect, from),
{
    let center = rect.center();
    let half = rect.half_size();
    let dx = from.x as i64 - center.x as i64;
    let dy = from.y as i64 - center.y as i64;
    let adx: i64 = if dx < 0 { -dx } else { dx };
    let ady: i64 = if dy < 0 { -dy } else { dy };
    proof {
        lemma_product_bound(adx as int, half.y as int);
        lemma_product_bound(ady as int, half.x as int);
    }
    let ax = adx * half.y as i64;
    let ay = ady * half.x as i64;
    let sx = sign_exec(dx);
    let sy = sign_exec(dy);
    if ax > ay {
        RectSegment::from_sign_pair(sx, 0)
    } else if ax < ay {
        RectSegment::from_sign_pair(0, sy)
    } else {
        RectSegment::from_sign_pair(sx, sy)
    }
}


pub open spec fn min2(a: int, b: int) -> int {
    if a <= b {
        a
    } else {
        b
    }
}

/// The nearest way out of a rectangle, from the outward distances of a
/// point to its right, left, upper and lower sides. A negative distance
/// means that the point is already outside: nothing to resolve, `Middle`
/// at distance 0. Otherwise the side at the smallest distance, and that
/// distance; among equal distances the later of right, left, up, down.
pub open spec fn nearest_exit(right: int, left: int, up: int, down: int) -> (RectSegment, int) {
    if right < 0 || left < 0 || up < 0 || down < 0 {
        (RectSegment::Middle, 0)
    } else {
        let m = min2(min2(right, left), min2(up, down));
        if down == m {
            (RectSegment::Down, m)
        } else if up == m {
            (RectSegment::Up, m)
        } else if left == m {
            (RectSegment::Left, m)
        } else {
            (RectSegment::Right, m)
        }
    }
}

/// The nearest exit of `from` out of `rect`, see `nearest_exit`.
pub open spec fn dist_outside(rect: Rect, from: Vec2) -> (RectSegment, int) {
    nearest_exit(
        rect.max.x - from.x,
        from.x - rect.min.x,
        rect.max.y - from.y,
        from.y - rect.min.y,
    )
}

pub(crate) fn nearest_exit_exec(right: i64, left: i64, up: i64, down: i64) -> (r: (RectSegment, i64))
    ensures
        r.0 == nearest_exit(right as int, left as int, up as int, down as int).0,
        r.1 == nearest_exit(right as int, left as int, up as int, down as int).1,
{
    if right < 0 || left < 0 || up < 0 || down < 0 {
        return (RectSegment::Middle, 0);
    }
    let mut result = (RectSegment::Right, right);
    if left <= result.1 {
        result = (RectSegment::Left, left);
    }
    if up <= result.1 {
        result = (RectSegment::Up, up);
    }
    if down <= result.1 {
        result = (RectSegment::Down, down);
    }
    result
}

/// The side of `rect` nearest to `from` and the distance to it, or
/// `Middle` at distance 0 where `from` is outside `rect`.
pub fn rect_dist_outside(rect: Rect, from: Vec2) -> (r: (RectSegment, i64))
    ensures
        r.0 == dist_outside(rect, from).0,
        r.1 == dist_outside(rect, from).1,
{
    nearest_exit_exec(
        rect.max.x as i64 - from.x as i64,
        from.x as i64 - rect.min.x as i64,
        rect.max.y as i64 - from.y as i64,
        from.y as i64 - rect.min.y as i64,
    )
}

/// The push-out along the nearest exit: the normal of the side scaled by
/// the distance to it.
pub open spec fn exit_vector(exit: (RectSegment, int)) -> (int, int) {
    (exit.0.sx() * exit.1, exit.0.sy() * exit.1)
}

proof fn lemma_nearest_exit_axis(right: int, left: int, up: int, down: int)
    ensures
        ({
            let e = nearest_exit(right, left, up, down);
            &&& 0 <= e.1
            &&& e.1 <= right || right < 0
            &&& e.1 <= left || left < 0
            &&& e.0.sx() == 0 || e.0.sy() == 0
            &&& exit_vector(e).0 == e.0.sx() * e.1
            &&& -e.1 <= exit_vector(e).0 <= e.1
            &&& -e.1 <= exit_vector(e).1 <= e.1
        }),
{
}

pub(crate) fn exit_vector_exec(exit: (RectSegment, i64)) -> (r: Vec2)
    requires
        exit.1 >= 0,
        fits(exit.1 as int),
    ensures
        r.x == exit_vector((exit.0, exit.1 as int)).0,
        r.y == exit_vector((exit.0, exit.1 as int)).1,
{
    let n = exit.0.normal();
    let d = exit.1 as i32;
    Vec2 { x: n.x * d, y: n.y * d }
}

/// The smallest move that takes `from` onto the nearest side of `rect`;
/// zero where `from` is already outside.
pub fn rect_to_outside(rect: Rect, from: Vec2) -> (r: Vec2)
    requires
        rect.min.x <= rect.max.x,
        rect.min.y <= rect.max.y,
    ensures
        r.x == exit_vector(dist_outside(rect, from)).0,
        r.y == exit_vector(dist_outside(rect, from)).1,
{
    let exit = rect_dist_outside(rect, from);
    proof {
        lemma_nearest_exit_axis(
            rect.max.x - from.x,
            from.x - rect.min.x,
            rect.max.y - from.y,
            from.y - rect.min.y,
        );
    }
    exit_vector_exec(exit)
}

/// `(x, y)` reflected across the direction `(nx, ny)`:
/// `v - 2 (v . d) d / |d|^2`, which is `v - 2 (v . n) n` for the unit normal
/// `n = d / |d|`. A zero direction keeps `v`.
pub open spec fn reflect_across(x: int, y: int, nx: int, ny: int) -> (int, int) {
    let n2 = nx * nx + ny * ny;
    let d = x * nx + y * ny;
    if n2 == 0 {
        (x, y)
    } else {
        (x - 2 * d * nx / n2, y - 2 * d * ny / n2)
    }
}

/// `v` reflected across the contact normal of `seg`.
pub open spec fn reflected(v: Vec2, seg: RectSegment) -> (int, int) {
    reflect_across(v.x as int, v.y as int, seg.sx(), seg.sy())
}

/// The velocity `v` reflected across the contact normal of `seg`.
pub fn reflect(v: Vec2, seg: RectSegment) -> (r: Vec2)
    requires
        v.x > i32::MIN,
        v.y > i32::MIN,
    ensures
        r.x == reflected(v, seg).0,
        r.y == reflected(v, seg).1,
        r == match seg {
            RectSegment::Middle => v,
            RectSegment::Left | RectSegment::Right => Vec2 { x: (-v.x) as i32, y: v.y },
            RectSegment::Up | RectSegment::Down => Vec2 { x: v.x, y: (-v.y) as i32 },
            RectSegment::UpperRight | RectSegment::LowerLeft => Vec2 {
                x: (-v.y) as i32,
                y: (-v.x) as i32,
            },
            RectSegment::UpperLeft | RectSegment::LowerRight => Vec2 { x: v.y, y: v.x },
        },
        r.x > i32::MIN,
        r.y > i32::MIN,
        r.x * r.x + r.y * r.y == v.x * v.x + v.y * v.y,
{
    let r = match seg {
        RectSegment::Middle => v,
        RectSegment::Left | RectSegment::Right => Vec2 { x: -v.x, y: v.y },
        RectSegment::Up | RectSegment::Down => Vec2 { x: v.x, y: -v.y },
        RectSegment::UpperRight | RectSegment::LowerLeft => Vec2 { x: -v.y, y: -v.x },
        RectSegment::UpperLeft | RectSegment::LowerRight => Vec2 { x: v.y, y: v.x },
    };
    proof {
        lemma_reflected(v, seg);
        let (x, y) = (v.x as int, v.y as int);
        assert(x * x + y * y == y * y + x * x);
        assert((-x) * (-x) == x * x) by (nonlinear_arith);
        assert((-y) * (-y) == y * y) by (nonlinear_arith);
    }
    r
}

proof fn lemma_reflected(v: Vec2, seg: RectSegment)
    ensures
        ({
            let (x, y) = (v.x as int, v.y as int);
            reflected(v, seg) == match seg {
                RectSegment::Middle => (x, y),
                RectSegment::Left | RectSegment::Right => (-x, y),
                RectSegment::Up | RectSegment::Down => (x, -y),
                RectSegment::UpperRight | RectSegment::LowerLeft => (-y, -x),
                RectSegment::UpperLeft | RectSegment::LowerRight => (y, x),
            }
        }),
{
    let (x, y) = (v.x as int, v.y as int);
    assert(reflect_across(x, y, 0, 0) == (x, y));
    assert(reflect_across(x, y, -1, 0) == (-x, y));
    assert(reflect_across(x, y, 1, 0) == (-x, y));
    assert(reflect_across(x, y, 0, 1) == (x, -y));
    assert(reflect_across(x, y, 0, -1) == (x, -y));
    assert(reflect_across(x, y, 1, 1) == (-y, -x));
    assert(reflect_across(x, y, -1, -1) == (-y, -x));
    assert(reflect_across(x, y, -1, 1) == (y, x));
    assert(reflect_across(x, y, 1, -1) == (y, x));
}

} // verus!

//! Points, rectangles and transforms on the integer world grid.
use vstd::prelude::*;

verus! {

/// Whether a mathematical integer can be stored as a grid coordinate.
pub open spec fn fits(v: int) -> bool {
    i32::MIN <= v <= i32::MAX
}

/// A point, offset or velocity on the integer world grid.
#[derive(Clone, Copy, Debug, PartialEq, Eq, Structural)]
pub struct Vec2 {
    pub x: i32,
    pub y: i32,
}

impl Vec2 {
    pub fn new(x: i32, y: i32) -> (r: Vec2)
        ensures
            r.x == x,
            r.y == y,
    {
        Vec2 { x, y }
    }

    pub fn zero() -> (r: Vec2)
        ensures
            r.x == 0,
            r.y == 0,
    {
        Vec2 { x: 0, y: 0 }
    }

    pub fn splat(v: i32) -> (r: Vec2)
        ensures
            r.x == v,
            r.y == v,
    {
        Vec2 { x: v, y: v }
    }
}

/// An axis-aligned rectangle given by its lower-left and upper-right corners.
///
/// A well-formed rectangle has `min <= max` on both axes and an even extent on
/// both axes, so that its center and half-size are grid values too.
#[derive(Clone, Copy, Debug, PartialEq, Eq, Structural)]
pub struct Rect {
    pub min: Vec2,
    pub max: Vec2,
}

impl Rect {
    pub open spec fn wf(&self) -> bool {
        &&& self.min.x <= self.max.x
        &&& self.min.y <= self.max.y
        &&& (self.max.x - self.min.x) % 2 == 0
        &&& (self.max.y - self.min.y) % 2 == 0
    }

    pub open spec fn cx(&self) -> int {
        (self.min.x + self.max.x) / 2
    }

    pub open spec fn cy(&self) -> int {
        (self.min.y + self.max.y) / 2
    }

    /// The center as a grid point.
    pub open spec fn spec_center(&self) -> Vec2 {
        Vec2 { x: self.cx() as i32, y: self.cy() as i32 }
    }

    /// Half of the width.
    pub open spec fn hw(&self) -> int {
        (self.max.x - self.min.x) / 2
    }

    /// Half of the height.
    pub open spec fn hh(&self) -> int {
        (self.max.y - self.min.y) / 2
    }

    /// The rectangle with the given corners, as mathematical integers.
    pub open spec fn from_bounds(min_x: int, min_y: int, max_x: int, max_y: int) -> Rect {
        Rect {
            min: Vec2 { x: min_x as i32, y: min_y as i32 },
            max: Vec2 { x: max_x as i32, y: max_y as i32 },
        }
    }

    /// Whether the rectangle with the given center and half-size has grid corners.
    pub open spec fn center_half_fits(cx: int, cy: int, hx: int, hy: int) -> bool {
        fits(cx - hx) && fits(cx + hx) && fits(cy - hy) && fits(cy + hy)
    }

    pub open spec fn spec_from_center_half(cx: int, cy: int, hx: int, hy: int) -> Rect {
        Rect::from_bounds(cx - hx, cy - hy, cx + hx, cy + hy)
    }

    /// Whether the rectangle is well formed, see `wf`.
    pub fn is_wf(&self) -> (r: bool)
        ensures
            r == self.wf(),
    {
        let w = self.max.x as i64 - self.min.x as i64;
        let h = self.max.y as i64 - self.min.y as i64;
        w >= 0 && h >= 0 && w % 2 == 0 && h % 2 == 0
    }

    pub fn new(min: Vec2, max: Vec2) -> (r: Rect)
        ensures
            r.min == min,
            r.max == max,
    {
        Rect { min, max }
    }

    /// The rectangle centered at `origin` reaching `half_size` out on each axis.
    pub fn from_center_half_size(origin: Vec2, half_size: Vec2) -> (r: Rect)
        requires
            half_size.x >= 0,
            half_size.y >= 0,
            Rect::center_half_fits(origin.x as int, origin.y as int, half_size.x as int, half_size.y as int),
        ensures
            r == Rect::spec_from_center_half(origin.x as int, origin.y as int, half_size.x as int, half_size.y as int),
            r.wf(),
            r.cx() == origin.x,
            r.cy() == origin.y,
            r.hw() == half_size.x,
            r.hh() == half_size.y,
    {
        Rect {
            min: Vec2 { x: origin.x - half_size.x, y: origin.y - half_size.y },
            max: Vec2 { x: origin.x + half_size.x, y: origin.y + half_size.y },
        }
    }

    /// The center point.
    pub fn center(&self) -> (r: Vec2)
        requires
            self.wf(),
        ensures
            r == self.spec_center(),
            r.x == self.cx(),
            r.y == self.cy(),
    {
        let x = (self.min.x as i64 + self.max.x as i64) / 2;
        let y = (self.min.y as i64 + self.max.y as i64) / 2;
        Vec2 { x: x as i32, y: y as i32 }
    }

    /// Half of the size on each axis.
    pub fn half_size(&self) -> (r: Vec2)
        requires
            self.wf(),
        ensures
            r.x == self.hw(),
            r.y == self.hh(),
    {
        let x = (self.max.x as i64 - self.min.x as i64) / 2;
        let y = (self.max.y as i64 - self.min.y as i64) / 2;
        Vec2 { x: x as i32, y: y as i32 }
    }

    /// The extent on each axis; both must be grid values.
    pub fn size(&self) -> (r: Vec2)
        requires
            self.wf(),
            fits(self.max.x - self.min.x),
            fits(self.max.y - self.min.y),
        ensures
            r.x == self.max.x - self.min.x,
            r.y == self.max.y - self.min.y,
    {
        Vec2 { x: self.max.x - self.min.x, y: self.max.y - self.min.y }
    }

    pub fn width(&self) -> (r: i64)
        ensures
            r == self.max.x - self.min.x,
    {
        self.max.x as i64 - self.min.x as i64
    }

    pub fn height(&self) -> (r: i64)
        ensures
            r == self.max.y - self.min.y,
    {
        self.max.y as i64 - self.min.y as i64
    }
}


/// A placement of a body in the world: a translation and a per-axis scale.
/// Rotation is not modelled.
#[derive(Clone, Copy, Debug, PartialEq, Eq, Structural)]
pub struct Transform {
    pub translation: Vec2,
    pub scale: Vec2,
}

impl Transform {
    pub fn new(translation: Vec2, scale: Vec2) -> (r: Transform)
        ensures
            r.translation == translation,
            r.scale == scale,
    {
        Transform { translation, scale }
    }

    /// The placement at `translation` with unit scale.
    pub fn from_translation(translation: Vec2) -> (r: Transform)
        ensures
            r.translation == translation,
            r.scale.x == 1,
            r.scale.y == 1,
    {
        Transform { translation, scale: Vec2 { x: 1, y: 1 } }
    }
}

/// Whether `rect` placed by `t` is a well-formed grid rectangle.
pub open spec fn can_transform(rect: Rect, t: Transform) -> bool {
    &&& rect.wf()
    &&& t.scale.x >= 0
    &&& t.scale.y >= 0
    &&& Rect::center_half_fits(
        rect.cx() + t.translation.x,
        rect.cy() + t.translation.y,
        rect.hw() * t.scale.x,
        rect.hh() * t.scale.y,
    )
}

fn fits_exec(v: i64) -> (r: bool)
    ensures
        r == fits(v as int),
{
    i32::MIN as i64 <= v && v <= i32::MAX as i64
}

/// Whether `rect` placed by `t` is a well-formed grid rectangle, see
/// `can_transform`.
pub fn is_transformable(rect: Rect, t: &Transform) -> (r: bool)
    ensures
        r == can_transform(rect, *t),
{
    if !rect.is_wf() || t.scale.x < 0 || t.scale.y < 0 {
        return false;
    }
    let center = rect.center();
    let half = rect.half_size();
    proof {
        assert(0 <= half.x * t.scale.x <= 0x7fff_ffff * 0x7fff_ffff) by (nonlinear_arith)
            requires
                0 <= half.x <= 0x7fff_ffff,
                0 <= t.scale.x <= 0x7fff_ffff,
        ;
        assert(0 <= half.y * t.scale.y <= 0x7fff_ffff * 0x7fff_ffff) by (nonlinear_arith)
            requires
                0 <= half.y <= 0x7fff_ffff,
                0 <= t.scale.y <= 0x7fff_ffff,
        ;
    }
    let hx = half.x as i64 * t.scale.x as i64;
    let hy = half.y as i64 * t.scale.y as i64;
    let cx = center.x as i64 + t.translation.x as i64;
    let cy = center.y as i64 + t.translation.y as i64;
    fits_exec(cx - hx) && fits_exec(cx + hx) && fits_exec(cy - hy) && fits_exec(cy + hy)
}

/// `rect` moved by the translation and scaled about its own center.
pub open spec fn transformed(rect: Rect, t: Transform) -> Rect {
    Rect::spec_from_center_half(
        rect.cx() + t.translation.x,
        rect.cy() + t.translation.y,
        rect.hw() * t.scale.x,
        rect.hh() * t.scale.y,
    )
}

/// Whether `rect` can be resolved under an optional placement.
pub open spec fn can_resolve(rect: Rect, t: Option<Transform>) -> bool {
    match t {
        Some(t) => can_transform(rect, t),
        None => rect.wf(),
    }
}

/// The world rectangle of a local rectangle under an optional placement;
/// no placement means the identity.
pub open spec fn resolved(rect: Rect, t: Option<Transform>) -> Rect {
    match t {
        Some(t) => transformed(rect, t),
        None => rect,
    }
}

pub proof fn lemma_transformed_wf(rect: Rect, t: Transform)
    requires
        can_transform(rect, t),
    ensures
        transformed(rect, t).wf(),
        transformed(rect, t).cx() == rect.cx() + t.translation.x,
        transformed(rect, t).cy() == rect.cy() + t.translation.y,
        transformed(rect, t).hw() == rect.hw() * t.scale.x,
        transformed(rect, t).hh() == rect.hh() * t.scale.y,
{
    assert(rect.hw() * t.scale.x >= 0) by (nonlinear_arith)
        requires
            rect.hw() >= 0,
            t.scale.x >= 0,
    ;
    assert(rect.hh() * t.scale.y >= 0) by (nonlinear_arith)
        requires
            rect.hh() >= 0,
            t.scale.y >= 0,
    ;
}

/// Scaling by two about the origin keeps the center of a rectangle and
/// doubles its width and height.
pub proof fn lemma_scale_by_two_keeps_center(rect: Rect)
    requires
        can_transform(rect, Transform { translation: Vec2 { x: 0, y: 0 }, scale: Vec2 { x: 2, y: 2 } }),
    ensures
        ({
            let r = transformed(rect, Transform { translation: Vec2 { x: 0, y: 0 }, scale: Vec2 { x: 2, y: 2 } });
            &&& r.wf()
            &&& r.cx() == rect.cx()
            &&& r.cy() == rect.cy()
            &&& r.max.x - r.min.x == 2 * (rect.max.x - rect.min.x)
            &&& r.max.y - r.min.y == 2 * (rect.max.y - rect.min.y)
        }),
{
    lemma_transformed_wf(rect, Transform { translation: Vec2 { x: 0, y: 0 }, scale: Vec2 { x: 2, y: 2 } });
}

/// Offsets the rect by the translation and scales it about its center by
/// the scale.
pub fn rect_transform_no_rot(rect: Rect, trs: &Transform) -> (r: Rect)
    requires
        can_transform(rect, *trs),
    ensures
        r == transformed(rect, *trs),
        r.wf(),
        r.cx() == rect.cx() + trs.translation.x,
        r.cy() == rect.cy() + trs.translation.y,
        r.hw() == rect.hw() * trs.scale.x,
        r.hh() == rect.hh() * trs.scale.y,
{
    proof {
        lemma_transformed_wf(rect, *trs);
    }
    let center = rect.center();
    let half = rect.half_size();
    let hx = half.x as i64 * trs.scale.x as i64;
    let hy = half.y as i64 * trs.scale.y as i64;
    let cx = center.x as i64 + trs.translation.x as i64;
    let cy = center.y as i64 + trs.translation.y as i64;
    Rect {
        min: Vec2 { x: (cx - hx) as i32, y: (cy - hy) as i32 },
        max: Vec2 { x: (cx + hx) as i32, y: (cy + hy) as i32 },
    }
}

/// Like `rect_transform_no_rot`; without a placement the rect is returned
/// unchanged.
pub fn rect_try_transform_no_rot(rect: Rect, trs: Option<&Transform>) -> (r: Rect)
    requires
        match trs {
            Some(t) => can_transform(rect, *t),
            None => rect.wf(),
        },
    ensures
        r.wf(),
        match trs {
            Some(t) => r == transformed(rect, *t),
            None => r == rect,
        },
{
    match trs {
        Some(t) => rect_transform_no_rot(rect, t),
        None => rect,
    }
}

/// The rect moved by `offset`.
pub fn rect_offset(rect: Rect, offset: Vec2) -> (r: Rect)
    requires
        fits(rect.min.x + offset.x),
        fits(rect.min.y + offset.y),
        fits(rect.max.x + offset.x),
        fits(rect.max.y + offset.y),
    ensures
        r.min.x == rect.min.x + offset.x,
        r.min.y == rect.min.y + offset.y,
        r.max.x == rect.max.x + offset.x,
        r.max.y == rect.max.y + offset.y,
{
    Rect {
        min: Vec2 { x: rect.min.x + offset.x, y: rect.min.y + offset.y },
        max: Vec2 { x: rect.max.x + offset.x, y: rect.max.y + offset.y },
    }
}

/// The rect grown by `expand` in total on each axis, half on each side.
pub fn rect_expand(rect: Rect, expand: Vec2) -> (r: Rect)
    requires
        rect.wf(),
        expand.x >= 0,
        expand.y >= 0,
        expand.x % 2 == 0,
        expand.y % 2 == 0,
        fits(rect.min.x - expand.x / 2),
        fits(rect.min.y - expand.y / 2),
        fits(rect.max.x + expand.x / 2),
        fits(rect.max.y + expand.y / 2),
    ensures
        r.wf(),
        r.min.x == rect.min.x - expand.x / 2,
        r.min.y == rect.min.y - expand.y / 2,
        r.max.x == rect.max.x + expand.x / 2,
        r.max.y == rect.max.y + expand.y / 2,
{
    let ex = expand.x / 2;
    let ey = expand.y / 2;
    Rect {
        min: Vec2 { x: rect.min.x - ex, y: rect.min.y - ey },
        max: Vec2 { x: rect.max.x + ex, y: rect.max.y + ey },
    }
}

/// Four walls of thickness `result_width` that enclose `rect` from the
/// outside: upper, lower, right and left, in that order.
pub fn rect_box_in_with_rects(rect: Rect, result_width: i32) -> (r: [Rect; 4])
    requires
        rect.wf(),
        result_width >= 0,
        result_width % 2 == 0,
        fits(rect.max.y + result_width),
        fits(rect.min.y - result_width),
        fits(rect.max.x + result_width),
        fits(rect.min.x - result_width),
    ensures
        r[0] == Rect::from_bounds(rect.min.x as int, rect.max.y as int, rect.max.x as int, rect.max.y + result_width),
        r[1] == Rect::from_bounds(rect.min.x as int, rect.min.y - result_width, rect.max.x as int, rect.min.y as int),
        r[2] == Rect::from_bounds(rect.max.x as int, rect.min.y as int, rect.max.x + result_width, rect.max.y as int),
        r[3] == Rect::from_bounds(rect.min.x - result_width, rect.min.y as int, rect.min.x as int, rect.max.y as int),
        forall|i: int| 0 <= i < 4 ==> (#[trigger] r[i]).wf(),
{
    let w = result_width;
    [
        Rect {
            min: Vec2 { x: rect.min.x, y: rect.max.y },
            max: Vec2 { x: rect.max.x, y: rect.max.y + w },
        },
        Rect {
            min: Vec2 { x: rect.min.x, y: rect.min.y - w },
            max: Vec2 { x: rect.max.x, y: rect.min.y },
        },
        Rect {
            min: Vec2 { x: rect.max.x, y: rect.min.y },
            max: Vec2 { x: rect.max.x + w, y: rect.max.y },
        },
        Rect {
            min: Vec2 { x: rect.min.x - w, y: rect.min.y },
            max: Vec2 { x: rect.min.x, y: rect.max.y },
        },
    ]
}

} // verus!

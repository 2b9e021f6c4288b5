//! Moving entities by held direction keys and keeping them inside optional
//! bounds, both on the integer world grid.
use vstd::prelude::*;

use crate::geometry::{fits, Vec2};

verus! {

/// Which of the four direction keys of a mover are held this tick.
#[derive(Clone, Copy, Debug, PartialEq, Eq, Structural)]
pub struct MoveKeys {
    pub up: bool,
    pub down: bool,
    pub left: bool,
    pub right: bool,
}

/// Moves an entity by `speed` grid units per tick along each axis whose key
/// is held; opposite keys cancel.
#[derive(Clone, Copy, Debug, PartialEq, Eq, Structural)]
pub struct TransformInputMover {
    pub speed: Vec2,
}

/// `v` moved by `step` for each of the two keys held: forward adds, back
/// subtracts.
pub open spec fn held_step(v: int, step: int, forward: bool, back: bool) -> int {
    v + (if forward {
        step
    } else {
        0
    }) - (if back {
        step
    } else {
        0
    })
}

impl TransformInputMover {
    /// The translation after one tick with `keys` held.
    pub open spec fn moved(self, keys: MoveKeys, p: Vec2) -> (int, int) {
        (
            held_step(p.x as int, self.speed.x as int, keys.right, keys.left),
            held_step(p.y as int, self.speed.y as int, keys.up, keys.down),
        )
    }

    pub open spec fn can_move(self, keys: MoveKeys, p: Vec2) -> bool {
        fits(self.moved(keys, p).0) && fits(self.moved(keys, p).1)
    }

    /// The translation `translation` after one tick with `keys` held.
    pub fn step(&self, keys: MoveKeys, translation: Vec2) -> (r: Vec2)
        requires
            self.can_move(keys, translation),
        ensures
            (r.x as int, r.y as int) == self.moved(keys, translation),
    {
        let mut x = translation.x as i64;
        let mut y = translation.y as i64;
        if keys.up {
            y = y + self.speed.y as i64;
        }
        if keys.down {
            y = y - self.speed.y as i64;
        }
        if keys.right {
            x = x + self.speed.x as i64;
        }
        if keys.left {
            x = x - self.speed.x as i64;
        }
        Vec2 { x: x as i32, y: y as i32 }
    }

    /// The translation after one tick, or `None` where it would leave the
    /// grid.
    pub fn try_step(&self, keys: MoveKeys, translation: Vec2) -> (r: Option<Vec2>)
        ensures
            r.is_some() <==> self.can_move(keys, translation),
            r.is_some() ==> (r.unwrap().x as int, r.unwrap().y as int) == self.moved(keys, translation),
    {
        let dx: i64 = (if keys.right { self.speed.x as i64 } else { 0 }) - (if keys.left {
            self.speed.x as i64
        } else {
            0
        });
        let dy: i64 = (if keys.up { self.speed.y as i64 } else { 0 }) - (if keys.down {
            self.speed.y as i64
        } else {
            0
        });
        let x = translation.x as i64 + dx;
        let y = translation.y as i64 + dy;
        if x < i32::MIN as i64 || x > i32::MAX as i64 || y < i32::MIN as i64 || y > i32::MAX as i64 {
            None
        } else {
            Some(self.step(keys, translation))
        }
    }

    /// Moves each entity, given with its mover, held keys and translation,
    /// by one tick.
    pub fn fixedupdate_move_system(query: &mut Vec<(TransformInputMover, MoveKeys, Vec2)>)
        requires
            forall|i: int|
                0 <= i < old(query).len() ==> (#[trigger] old(query)[i]).0.can_move(
                    old(query)[i].1,
                    old(query)[i].2,
                ),
        ensures
            final(query).len() == old(query).len(),
            forall|i: int|
                0 <= i < final(query).len() ==> {
                    let (m, k, p) = #[trigger] old(query)[i];
                    &&& final(query)[i].0 == m
                    &&& final(query)[i].1 == k
                    &&& (final(query)[i].2.x as int, final(query)[i].2.y as int) == m.moved(k, p)
                },
    {
        let ghost start = query@;
        let mut i: usize = 0;
        while i < query.len()
            invariant
                query.len() == start.len(),
                i <= query.len(),
                forall|k: int| i <= k < query.len() ==> query[k] == start[k],
                forall|k: int|
                    0 <= k < start.len() ==> (#[trigger] start[k]).0.can_move(start[k].1, start[k].2),
                forall|k: int|
                    0 <= k < i ==> {
                        let (m, keys, p) = #[trigger] start[k];
                        &&& query[k].0 == m
                        &&& query[k].1 == keys
                        &&& (query[k].2.x as int, query[k].2.y as int) == m.moved(keys, p)
                    },
            decreases start.len() - i,
        {
            let (m, keys, p) = query[i];
            assert(start[i as int] == query@[i as int]);
            let moved = m.step(keys, p);
            query.set(i, (m, keys, moved));
            i = i + 1;
        }
    }
}

/// Optional limits on an entity's translation: an upper and a lower limit
/// on y, a right and a left limit on x.
#[derive(Clone, Copy, Debug, PartialEq, Eq, Structural)]
pub struct TransformBoundsBox {
    pub upper_bounds: Option<i32>,
    pub lower_bounds: Option<i32>,
    pub right_bounds: Option<i32>,
    pub left_bounds: Option<i32>,
}

/// `v` lowered to `hi` where it is above it, then raised to `lo` where it is
/// below it; the lower limit wins where the two cross.
pub open spec fn clamp_axis(v: int, hi: Option<i32>, lo: Option<i32>) -> int {
    let a = match hi {
        Some(h) => if v > h {
            h as int
        } else {
            v
        },
        None => v,
    };
    match lo {
        Some(l) => if a < l {
            l as int
        } else {
            a
        },
        None => a,
    }
}

fn clamp_axis_exec(v: i32, hi: Option<i32>, lo: Option<i32>) -> (r: i32)
    ensures
        r == clamp_axis(v as int, hi, lo),
{
    let mut a = v;
    if let Some(h) = hi {
        if a > h {
            a = h;
        }
    }
    if let Some(l) = lo {
        if a < l {
            a = l;
        }
    }
    a
}

impl TransformBoundsBox {
    /// The translation `p` kept within the limits.
    pub open spec fn clamped(self, p: Vec2) -> Vec2 {
        Vec2 {
            x: clamp_axis(p.x as int, self.right_bounds, self.left_bounds) as i32,
            y: clamp_axis(p.y as int, self.upper_bounds, self.lower_bounds) as i32,
        }
    }

    /// The translation kept within the limits.
    pub fn clamp(&self, translation: Vec2) -> (r: Vec2)
        ensures
            r == self.clamped(translation),
            r.x == clamp_axis(translation.x as int, self.right_bounds, self.left_bounds),
            r.y == clamp_axis(translation.y as int, self.upper_bounds, self.lower_bounds),
    {
        Vec2 {
            x: clamp_axis_exec(translation.x, self.right_bounds, self.left_bounds),
            y: clamp_axis_exec(translation.y, self.upper_bounds, self.lower_bounds),
        }
    }

    /// Keeps each translation, given with its limits, within them.
    pub fn fixedpostupdate_system(query: &mut Vec<(TransformBoundsBox, Vec2)>)
        ensures
            final(query).len() == old(query).len(),
            forall|i: int|
                0 <= i < final(query).len() ==> {
                    let (b, p) = #[trigger] old(query)[i];
                    final(query)[i] == (b, b.clamped(p))
                },
    {
        let ghost start = query@;
        let mut i: usize = 0;
        while i < query.len()
            invariant
                query.len() == start.len(),
                i <= query.len(),
                forall|k: int| i <= k < query.len() ==> query[k] == start[k],
                forall|k: int|
                    0 <= k < i ==> {
                        let (b, p) = #[trigger] start[k];
                        query[k] == (b, b.clamped(p))
                    },
            decreases start.len() - i,
        {
            let (b, p) = query[i];
            assert(start[i as int] == query@[i as int]);
            let kept = b.clamp(p);
            query.set(i, (b, kept));
            i = i + 1;
        }
    }
}

} // verus!

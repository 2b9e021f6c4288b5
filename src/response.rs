//! The two responses to a tick's collision events: pushing tagged entities
//! out of what they overlap, and reflecting the velocity of moving ones.
use vstd::prelude::*;

use crate::collision::{
    avoid_distance, avoid_fits, avoid_vector, contact_segment, AABBCollisionEvent,
    EntityId,
};
use crate::geometry::{fits, Vec2};
use crate::segment::{rect_seg_normal, reflect, reflected};

verus! {

/// The position of `e` after the correction of one event, where `e` is a
/// party to it.
pub open spec fn avoid_step(p: (int, int), e: EntityId, ev: AABBCollisionEvent) -> (int, int) {
    if ev.involves(e) {
        let v = avoid_vector(ev.bounds_of(e), ev.other_bounds_of(e));
        (p.0 + v.0, p.1 + v.1)
    } else {
        p
    }
}

/// The position of `e` after the corrections of `evs`, one after another
/// in order.
pub open spec fn avoided(p: (int, int), e: EntityId, evs: Seq<AABBCollisionEvent>) -> (int, int)
    decreases evs.len(),
{
    if evs.len() == 0 {
        p
    } else {
        avoid_step(avoided(p, e, evs.drop_last()), e, evs.last())
    }
}

/// Whether the event at `k` is well formed and, where `e` is a party to it,
/// its correction and the position after it are grid values.
pub open spec fn avoid_fits_at(p: Vec2, e: EntityId, evs: Seq<AABBCollisionEvent>, k: int) -> bool {
    let ev = evs[k];
    let q = avoided((p.x as int, p.y as int), e, evs.take(k + 1));
    ev.wf() && (ev.involves(e) ==> avoid_fits(ev.bounds_of(e), ev.other_bounds_of(e)) && fits(q.0)
        && fits(q.1))
}

/// Whether every correction of `e` by `evs`, and every position on the
/// way, is a grid value.
pub open spec fn can_avoid(p: Vec2, e: EntityId, evs: Seq<AABBCollisionEvent>) -> bool {
    forall|k: int| 0 <= k < evs.len() ==> #[trigger] avoid_fits_at(p, e, evs, k)
}

/// The velocity of `e` after the reflection of one event, where `e` is a
/// party to it.
pub open spec fn bounce_step(v: (int, int), e: EntityId, ev: AABBCollisionEvent) -> (int, int) {
    if ev.involves(e) {
        reflected(
            Vec2 { x: v.0 as i32, y: v.1 as i32 },
            contact_segment(ev.bounds_of(e), ev.other_bounds_of(e)),
        )
    } else {
        v
    }
}

/// The velocity of `e` after the reflections of `evs`, one after another in
/// order.
pub open spec fn bounced(v: (int, int), e: EntityId, evs: Seq<AABBCollisionEvent>) -> (int, int)
    decreases evs.len(),
{
    if evs.len() == 0 {
        v
    } else {
        bounce_step(bounced(v, e, evs.drop_last()), e, evs.last())
    }
}

pub open spec fn all_wf(evs: Seq<AABBCollisionEvent>) -> bool {
    forall|k: int| 0 <= k < evs.len() ==> (#[trigger] evs[k]).wf()
}

/// The position of `entity` after it is moved out of each rectangle that it
/// collided with, in event order.
pub fn avoid_position(position: Vec2, entity: EntityId, events: &Vec<AABBCollisionEvent>) -> (r: Vec2)
    requires
        can_avoid(position, entity, events@),
    ensures
        (r.x as int, r.y as int) == avoided((position.x as int, position.y as int), entity, events@),
{
    let ghost p0 = (position.x as int, position.y as int);
    let mut p = position;
    let mut k: usize = 0;
    while k < events.len()
        invariant
            k <= events.len(),
            can_avoid(position, entity, events@),
            p0 == (position.x as int, position.y as int),
            (p.x as int, p.y as int) == avoided(p0, entity, events@.take(k as int)),
        decreases events.len() - k,
    {
        let event = &events[k];
        proof {
            assert(events@.take(k + 1).drop_last() =~= events@.take(k as int));
            assert(events@.take(k + 1).last() == events@[k as int]);
            let ev = events@[k as int];
            assert(avoid_fits_at(position, entity, events@, k as int));
            assert(ev.wf());
            assert(avoided(p0, entity, events@.take(k + 1)) == avoid_step(
                avoided(p0, entity, events@.take(k as int)),
                entity,
                ev,
            ));
        }
        if event.contains(entity) {
            let v = event.to_avoid(entity);
            p = Vec2 { x: p.x + v.x, y: p.y + v.y };
        }
        k = k + 1;
    }
    proof {
        assert(events@.take(events.len() as int) =~= events@);
    }
    p
}

/// The position of `entity` after the corrections of `events`, see
/// `avoid_position`, or `None` where an event is not well formed or a
/// correction or a position on the way is not a grid value.
pub fn try_avoid_position(position: Vec2, entity: EntityId, events: &Vec<AABBCollisionEvent>) -> (r:
    Option<Vec2>)
    ensures
        r.is_some() <==> can_avoid(position, entity, events@),
        r.is_some() ==> (r.unwrap().x as int, r.unwrap().y as int) == avoided(
            (position.x as int, position.y as int),
            entity,
            events@,
        ),
{
    let ghost p0 = (position.x as int, position.y as int);
    let mut p = position;
    let mut k: usize = 0;
    while k < events.len()
        invariant
            k <= events.len(),
            p0 == (position.x as int, position.y as int),
            forall|j: int| 0 <= j < k ==> #[trigger] avoid_fits_at(position, entity, events@, j),
            (p.x as int, p.y as int) == avoided(p0, entity, events@.take(k as int)),
        decreases events.len() - k,
    {
        let event = &events[k];
        let ghost ev = events@[k as int];
        proof {
            assert(events@.take(k + 1).drop_last() =~= events@.take(k as int));
            assert(events@.take(k + 1).last() == ev);
        }
        if !event.l_bounds.is_wf() || !event.r_bounds.is_wf() {
            assert(!avoid_fits_at(position, entity, events@, k as int));
            return None;
        }
        if event.contains(entity) {
            let (this_bounds, other_bounds) = event.this_other_bounds(entity);
            if avoid_distance(this_bounds, other_bounds) > i32::MAX as i64 {
                assert(!avoid_fits_at(position, entity, events@, k as int));
                return None;
            }
            let v = event.to_avoid(entity);
            let x = p.x as i64 + v.x as i64;
            let y = p.y as i64 + v.y as i64;
            if x < i32::MIN as i64 || x > i32::MAX as i64 || y < i32::MIN as i64 || y > i32::MAX as i64 {
                assert(!avoid_fits_at(position, entity, events@, k as int));
                return None;
            }
            p = Vec2 { x: x as i32, y: y as i32 };
        }
        assert(avoid_fits_at(position, entity, events@, k as int));
        k = k + 1;
    }
    proof {
        assert(events@.take(events.len() as int) =~= events@);
    }
    Some(p)
}

/// The velocity of `entity` after it is reflected off each rectangle that it
/// collided with, in event order.
pub fn bounce_velocity(velocity: Vec2, entity: EntityId, events: &Vec<AABBCollisionEvent>) -> (r: Vec2)
    requires
        all_wf(events@),
        velocity.x > i32::MIN,
        velocity.y > i32::MIN,
    ensures
        (r.x as int, r.y as int) == bounced((velocity.x as int, velocity.y as int), entity, events@),
        r.x > i32::MIN,
        r.y > i32::MIN,
        r.x * r.x + r.y * r.y == velocity.x * velocity.x + velocity.y * velocity.y,
{
    let ghost v0 = (velocity.x as int, velocity.y as int);
    let mut v = velocity;
    let mut k: usize = 0;
    while k < events.len()
        invariant
            k <= events.len(),
            all_wf(events@),
            v0 == (velocity.x as int, velocity.y as int),
            v.x > i32::MIN,
            v.y > i32::MIN,
            (v.x as int, v.y as int) == bounced(v0, entity, events@.take(k as int)),
            v.x * v.x + v.y * v.y == velocity.x * velocity.x + velocity.y * velocity.y,
        decreases events.len() - k,
    {
        let event = &events[k];
        proof {
            assert(events@.take(k + 1).drop_last() =~= events@.take(k as int));
            assert(events@.take(k + 1).last() == events@[k as int]);
            assert(events@[k as int].wf());
        }
        if event.contains(entity) {
            let (this_bounds, other_bounds) = event.this_other_bounds(entity);
            let seg = rect_seg_normal(other_bounds, this_bounds.center());
            v = reflect(v, seg);
        }
        k = k + 1;
    }
    proof {
        assert(events@.take(events.len() as int) =~= events@);
    }
    v
}

/// Marks entities that are kept outside whatever they overlap.
#[derive(Clone, Copy, Debug, PartialEq, Eq, Structural)]
pub struct AABBCollisionAvoider;

impl AABBCollisionAvoider {
    /// Moves each tagged entity, given with its position, out of every
    /// rectangle that it collided with this tick, in event order.
    pub fn fixedupdate_system(query: &mut Vec<(Vec2, EntityId)>, events: &Vec<AABBCollisionEvent>)
        requires
            forall|i: int|
                0 <= i < old(query).len() ==> can_avoid(
                    (#[trigger] old(query)[i]).0,
                    old(query)[i].1,
                    events@,
                ),
        ensures
            final(query).len() == old(query).len(),
            forall|i: int|
                0 <= i < final(query).len() ==> {
                    let (p, e) = #[trigger] old(query)[i];
                    &&& final(query)[i].1 == e
                    &&& (final(query)[i].0.x as int, final(query)[i].0.y as int) == avoided(
                        (p.x as int, p.y as int),
                        e,
                        events@,
                    )
                },
    {
        let ghost start = query@;
        let mut i: usize = 0;
        while i < query.len()
            invariant
                query.len() == start.len(),
                i <= query.len(),
                forall|k: int| i <= k < query.len() ==> query[k] == start[k],
                forall|k: int| 0 <= k < start.len() ==> can_avoid((#[trigger] start[k]).0, start[k].1, events@),
                forall|k: int|
                    0 <= k < i ==> {
                        let (p, e) = #[trigger] start[k];
                        &&& query[k].1 == e
                        &&& (query[k].0.x as int, query[k].0.y as int) == avoided(
                            (p.x as int, p.y as int),
                            e,
                            events@,
                        )
                    },
            decreases start.len() - i,
        {
            let (p, e) = query[i];
            assert(start[i as int] == query@[i as int]);
            let moved = avoid_position(p, e, events);
            query.set(i, (moved, e));
            i = i + 1;
        }
    }
}

/// Marks moving entities whose velocity is reflected off what they strike.
#[derive(Clone, Copy, Debug, PartialEq, Eq, Structural)]
pub struct AABBCollisionBouncer;

impl AABBCollisionBouncer {
    /// Reflects the velocity of each tagged entity, given with the entity,
    /// off every rectangle that it collided with this tick, in event order.
    pub fn fixedupdate_system(query: &mut Vec<(Vec2, EntityId)>, events: &Vec<AABBCollisionEvent>)
        requires
            all_wf(events@),
            forall|i: int|
                0 <= i < old(query).len() ==> (#[trigger] old(query)[i]).0.x > i32::MIN
                    && old(query)[i].0.y > i32::MIN,
        ensures
            final(query).len() == old(query).len(),
            forall|i: int|
                0 <= i < final(query).len() ==> {
                    let (v, e) = #[trigger] old(query)[i];
                    &&& final(query)[i].1 == e
                    &&& (final(query)[i].0.x as int, final(query)[i].0.y as int) == bounced(
                        (v.x as int, v.y as int),
                        e,
                        events@,
                    )
                },
    {
        let ghost start = query@;
        let mut i: usize = 0;
        while i < query.len()
            invariant
                query.len() == start.len(),
                i <= query.len(),
                all_wf(events@),
                forall|k: int| i <= k < query.len() ==> query[k] == start[k],
                forall|k: int|
                    0 <= k < start.len() ==> (#[trigger] start[k]).0.x > i32::MIN && start[k].0.y
                        > i32::MIN,
                forall|k: int|
                    0 <= k < i ==> {
                        let (v, e) = #[trigger] start[k];
                        &&& query[k].1 == e
                        &&& (query[k].0.x as int, query[k].0.y as int) == bounced(
                            (v.x as int, v.y as int),
                            e,
                            events@,
                        )
                    },
            decreases start.len() - i,
        {
            let (v, e) = query[i];
            assert(start[i as int] == query@[i as int]);
            let turned = bounce_velocity(v, e, events);
            query.set(i, (turned, e));
            i = i + 1;
        }
    }
}

} // verus!

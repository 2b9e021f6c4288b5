//! Colliders, the pairwise overlap detector and the collision events it
//! emits.
use vstd::prelude::*;

use crate::geometry::{
    can_resolve, is_transformable, lemma_transformed_wf, resolved, rect_try_transform_no_rot, Rect, Transform, Vec2,
};
use crate::segment::{
    exit_vector, exit_vector_exec, nearest_exit, nearest_exit_exec, normal_segment,
    rect_seg_normal, RectSegment,
};

verus! {

/// A stable identity token for an entity of the simulation.
#[derive(Clone, Copy, Debug, PartialEq, Eq, Structural, Hash)]
pub struct EntityId {
    pub id: u64,
}

impl EntityId {
    pub fn new(id: u64) -> (r: EntityId)
        ensures
            r.id == id,
    {
        EntityId { id }
    }
}

/// A collision shape: a rectangle in the entity's own local space.
#[derive(Clone, Copy, Debug, PartialEq, Eq, Structural)]
pub struct AABBCollider {
    pub bounds: Rect,
}

/// One row of the collider table: a collider, the optional placement of its
/// entity and the entity.
#[derive(Clone, Copy, Debug, PartialEq, Eq, Structural)]
pub struct ColliderEntry {
    pub collider: AABBCollider,
    pub transform: Option<Transform>,
    pub entity: EntityId,
}

impl ColliderEntry {
    pub fn new(collider: AABBCollider, transform: Option<Transform>, entity: EntityId) -> (r: ColliderEntry)
        ensures
            r.collider == collider,
            r.transform == transform,
            r.entity == entity,
    {
        ColliderEntry { collider, transform, entity }
    }

    /// Whether the row can be resolved to a world rectangle, see `wf`.
    pub fn is_resolvable(&self) -> (r: bool)
        ensures
            r == self.wf(),
    {
        match &self.transform {
            Some(t) => is_transformable(self.collider.bounds, t),
            None => self.collider.bounds.is_wf(),
        }
    }

    /// The collider's rectangle in world space.
    pub open spec fn world(self) -> Rect {
        resolved(self.collider.bounds, self.transform)
    }

    pub open spec fn wf(self) -> bool {
        can_resolve(self.collider.bounds, self.transform)
    }
}

/// Open-interval overlap: rectangles that only touch along an edge or at a
/// corner do not overlap.
pub open spec fn overlaps(l: Rect, r: Rect) -> bool {
    &&& l.min.x < r.max.x
    &&& l.max.x > r.min.x
    &&& l.min.y < r.max.y
    &&& l.max.y > r.min.y
}

/// A collision of two entities, with both world rectangles as they were
/// when it was detected. `l_*` and `r_*` are two slots of equal standing.
#[derive(Clone, Copy, Debug, PartialEq, Eq, Structural)]
pub struct AABBCollisionEvent {
    pub l_entity: EntityId,
    pub l_bounds: Rect,
    pub r_entity: EntityId,
    pub r_bounds: Rect,
}

/// The event of the pair of rows `i` and `j`.
pub open spec fn pair_event(s: Seq<ColliderEntry>, i: int, j: int) -> AABBCollisionEvent {
    AABBCollisionEvent {
        l_entity: s[i].entity,
        l_bounds: s[i].world(),
        r_entity: s[j].entity,
        r_bounds: s[j].world(),
    }
}

/// Whether rows `i` and `j` belong to two distinct entities whose world
/// rectangles overlap.
pub open spec fn pair_hits(s: Seq<ColliderEntry>, i: int, j: int) -> bool {
    s[i].entity != s[j].entity && overlaps(s[i].world(), s[j].world())
}

/// The events of the pairs `(i, k)` with `i < k < j`, by increasing `k`.
pub open spec fn row_events(s: Seq<ColliderEntry>, i: int, j: int) -> Seq<AABBCollisionEvent>
    decreases j - i,
{
    if j <= i + 1 {
        Seq::empty()
    } else {
        let prev = row_events(s, i, j - 1);
        if pair_hits(s, i, j - 1) {
            prev.push(pair_event(s, i, j - 1))
        } else {
            prev
        }
    }
}

/// The events of the pairs whose first row is below `n`, in lexicographic
/// order of the pairs.
pub open spec fn events_upto(s: Seq<ColliderEntry>, n: int) -> Seq<AABBCollisionEvent>
    decreases n,
{
    if n <= 0 {
        Seq::empty()
    } else {
        events_upto(s, n - 1) + row_events(s, n - 1, s.len() as int)
    }
}

/// The events of one tick: one for each unordered pair of rows, in
/// lexicographic order, whose entities differ and whose world rectangles
/// overlap.
pub open spec fn detected(s: Seq<ColliderEntry>) -> Seq<AABBCollisionEvent> {
    events_upto(s, s.len() as int)
}

impl AABBCollider {
    /// The collider of the given size centered on the entity's origin.
    pub fn from_size(size: Vec2) -> (r: AABBCollider)
        requires
            size.x >= 0,
            size.y >= 0,
            size.x % 2 == 0,
            size.y % 2 == 0,
        ensures
            r.bounds.wf(),
            r.bounds.min.x == -(size.x / 2),
            r.bounds.min.y == -(size.y / 2),
            r.bounds.max.x == size.x / 2,
            r.bounds.max.y == size.y / 2,
    {
        let hx = size.x / 2;
        let hy = size.y / 2;
        AABBCollider { bounds: Rect { min: Vec2 { x: -hx, y: -hy }, max: Vec2 { x: hx, y: hy } } }
    }

    /// Detects every unordered pair of distinct entities whose world
    /// rectangles overlap, and emits one event for each, in lexicographic
    /// order of the rows.
    pub fn fixedupdate_collisiondetect_system(query: &Vec<ColliderEntry>) -> (r: Vec<
        AABBCollisionEvent,
    >)
        requires
            forall|i: int| 0 <= i < query.len() ==> (#[trigger] query[i]).wf(),
        ensures
            r@ == detected(query@),
            forall|k: int| 0 <= k < r.len() ==> (#[trigger] r[k]).wf(),
    {
        let n = query.len();
        let mut out: Vec<AABBCollisionEvent> = Vec::new();
        let mut i: usize = 0;
        while i < n
            invariant
                n == query.len(),
                i <= n,
                forall|k: int| 0 <= k < query.len() ==> (#[trigger] query[k]).wf(),
                out@ == events_upto(query@, i as int),
            decreases n - i,
        {
            let l = &query[i];
            let l_bounds = rect_try_transform_no_rot(l.collider.bounds, l.transform.as_ref());
            let ghost before = out@;
            let mut j: usize = i + 1;
            while j < n
                invariant
                    n == query.len(),
                    i < n,
                    i + 1 <= j <= n,
                    forall|k: int| 0 <= k < query.len() ==> (#[trigger] query[k]).wf(),
                    *l == query@[i as int],
                    l_bounds == query@[i as int].world(),
                    before == events_upto(query@, i as int),
                    out@ == before + row_events(query@, i as int, j as int),
                decreases n - j,
            {
                let r = &query[j];
                let ghost prev = out@;
                if l.entity.id != r.entity.id {
                    let r_bounds = rect_try_transform_no_rot(r.collider.bounds, r.transform.as_ref());
                    if l_bounds.min.x < r_bounds.max.x && l_bounds.max.x > r_bounds.min.x
                        && l_bounds.min.y < r_bounds.max.y && l_bounds.max.y > r_bounds.min.y {
                        out.push(
                            AABBCollisionEvent {
                                l_entity: l.entity,
                                l_bounds,
                                r_entity: r.entity,
                                r_bounds,
                            },
                        );
                    }
                }
                proof {
                    let rows = row_events(query@, i as int, j as int);
                    if pair_hits(query@, i as int, j as int) {
                        assert(out@ =~= before + rows.push(pair_event(query@, i as int, j as int)));
                    } else {
                        assert(out@ =~= before + rows);
                    }
                }
                j = j + 1;
            }
            i = i + 1;
        }
        proof {
            lemma_detected_events_are_hits(query@);
        }
        out
    }
}


/// Whether `ev` is an event between `a` and `b`, in either slot order.
pub open spec fn joins(ev: AABBCollisionEvent, a: EntityId, b: EntityId) -> bool {
    (ev.l_entity == a && ev.r_entity == b) || (ev.l_entity == b && ev.r_entity == a)
}

/// The number of events in `evs` between `a` and `b`.
pub open spec fn pairs_of(evs: Seq<AABBCollisionEvent>, a: EntityId, b: EntityId) -> nat
    decreases evs.len(),
{
    if evs.len() == 0 {
        0
    } else {
        pairs_of(evs.drop_last(), a, b) + if joins(evs.last(), a, b) {
            1nat
        } else {
            0nat
        }
    }
}

/// Whether no two rows of the table belong to the same entity.
pub open spec fn unique_entities(s: Seq<ColliderEntry>) -> bool {
    forall|i: int, j: int|
        0 <= i < s.len() && 0 <= j < s.len() && i != j ==> #[trigger] s[i].entity != #[trigger] s[j].entity
}

/// Whether `ev` is the event of some pair of rows of `s` that hits.
pub open spec fn from_pair(s: Seq<ColliderEntry>, ev: AABBCollisionEvent) -> bool {
    exists|i: int, j: int|
        0 <= i < j < s.len() && pair_hits(s, i, j) && ev == #[trigger] pair_event(s, i, j)
}

proof fn lemma_pairs_of_add(x: Seq<AABBCollisionEvent>, y: Seq<AABBCollisionEvent>, a: EntityId, b: EntityId)
    ensures
        pairs_of(x + y, a, b) == pairs_of(x, a, b) + pairs_of(y, a, b),
    decreases y.len(),
{
    if y.len() == 0 {
        assert(x + y =~= x);
    } else {
        assert((x + y).drop_last() =~= x + y.drop_last());
        assert((x + y).last() == y.last());
        lemma_pairs_of_add(x, y.drop_last(), a, b);
    }
}

proof fn lemma_row_pairs(s: Seq<ColliderEntry>, r: int, j: int, a: int, b: int)
    requires
        unique_entities(s),
        0 <= r,
        j <= s.len(),
        0 <= a < b < s.len(),
    ensures
        pairs_of(row_events(s, r, j), s[a].entity, s[b].entity) == if r == a && b < j && pair_hits(
            s,
            a,
            b,
        ) {
            1nat
        } else {
            0nat
        },
    decreases j - r,
{
    if j <= r + 1 {
        assert(row_events(s, r, j) =~= Seq::<AABBCollisionEvent>::empty());
    } else {
        lemma_row_pairs(s, r, j - 1, a, b);
        let prev = row_events(s, r, j - 1);
        if pair_hits(s, r, j - 1) {
            let ev = pair_event(s, r, j - 1);
            assert(prev.push(ev).drop_last() =~= prev);
            if joins(ev, s[a].entity, s[b].entity) {
                if s[r].entity == s[a].entity {
                    assert(r == a);
                    assert(j - 1 == b);
                } else {
                    assert(r == b);
                    assert(j - 1 == a);
                }
            }
        }
    }
}

proof fn lemma_upto_pairs(s: Seq<ColliderEntry>, n: int, a: int, b: int)
    requires
        unique_entities(s),
        0 <= n <= s.len(),
        0 <= a < b < s.len(),
    ensures
        pairs_of(events_upto(s, n), s[a].entity, s[b].entity) == if a < n && pair_hits(s, a, b) {
            1nat
        } else {
            0nat
        },
    decreases n,
{
    if n <= 0 {
        assert(events_upto(s, n) =~= Seq::<AABBCollisionEvent>::empty());
    } else {
        lemma_upto_pairs(s, n - 1, a, b);
        lemma_pairs_of_add(events_upto(s, n - 1), row_events(s, n - 1, s.len() as int), s[a].entity, s[b].entity);
        lemma_row_pairs(s, n - 1, s.len() as int, a, b);
    }
}

proof fn lemma_row_from_pair(s: Seq<ColliderEntry>, r: int, j: int)
    requires
        0 <= r,
        j <= s.len(),
    ensures
        forall|k: int| 0 <= k < row_events(s, r, j).len() ==> from_pair(s, #[trigger] row_events(s, r, j)[k]),
    decreases j - r,
{
    if j > r + 1 {
        lemma_row_from_pair(s, r, j - 1);
        let prev = row_events(s, r, j - 1);
        if pair_hits(s, r, j - 1) {
            let ev = pair_event(s, r, j - 1);
            assert(from_pair(s, ev));
            assert forall|k: int| 0 <= k < prev.push(ev).len() implies from_pair(s, #[trigger] prev.push(ev)[k]) by {
                if k < prev.len() {
                    assert(prev.push(ev)[k] == prev[k]);
                }
            }
        }
    }
}

proof fn lemma_upto_from_pair(s: Seq<ColliderEntry>, n: int)
    requires
        0 <= n <= s.len(),
    ensures
        forall|k: int| 0 <= k < events_upto(s, n).len() ==> from_pair(s, #[trigger] events_upto(s, n)[k]),
    decreases n,
{
    if n > 0 {
        lemma_upto_from_pair(s, n - 1);
        lemma_row_from_pair(s, n - 1, s.len() as int);
        let x = events_upto(s, n - 1);
        let y = row_events(s, n - 1, s.len() as int);
        assert forall|k: int| 0 <= k < (x + y).len() implies from_pair(s, #[trigger] (x + y)[k]) by {
            if k < x.len() {
                assert((x + y)[k] == x[k]);
            } else {
                assert((x + y)[k] == y[k - x.len()]);
            }
        }
    }
}

/// Every event of a tick pairs two distinct entities whose world rectangles
/// overlap, and carries those rectangles.
pub proof fn lemma_detected_events_are_hits(s: Seq<ColliderEntry>)
    requires
        forall|i: int| 0 <= i < s.len() ==> (#[trigger] s[i]).wf(),
    ensures
        forall|k: int|
            0 <= k < detected(s).len() ==> {
                let ev = #[trigger] detected(s)[k];
                &&& ev.l_entity != ev.r_entity
                &&& overlaps(ev.l_bounds, ev.r_bounds)
                &&& ev.wf()
            },
{
    lemma_upto_from_pair(s, s.len() as int);
    assert forall|k: int| 0 <= k < detected(s).len() implies {
        let ev = #[trigger] detected(s)[k];
        &&& ev.l_entity != ev.r_entity
        &&& overlaps(ev.l_bounds, ev.r_bounds)
        &&& ev.wf()
    } by {
        let ev = detected(s)[k];
        assert(from_pair(s, ev));
        let (i, j) = choose|i: int, j: int|
            0 <= i < j < s.len() && pair_hits(s, i, j) && ev == #[trigger] pair_event(s, i, j);
        lemma_world_wf(s[i]);
        lemma_world_wf(s[j]);
    }
}

proof fn lemma_world_wf(c: ColliderEntry)
    requires
        c.wf(),
    ensures
        c.world().wf(),
{
    if let Some(t) = c.transform {
        lemma_transformed_wf(c.collider.bounds, t);
    }
}

/// Where no two rows share an entity, the events of a tick hold exactly one
/// event between the entities of any two rows whose world rectangles
/// overlap, and none between two rows that do not; the count does not
/// depend on the order of the two rows.
pub proof fn lemma_detected_once_per_overlapping_pair(s: Seq<ColliderEntry>, i: int, j: int)
    requires
        unique_entities(s),
        0 <= i < s.len(),
        0 <= j < s.len(),
        i != j,
    ensures
        pairs_of(detected(s), s[i].entity, s[j].entity) == if overlaps(s[i].world(), s[j].world()) {
            1nat
        } else {
            0nat
        },
{
    if i < j {
        lemma_upto_pairs(s, s.len() as int, i, j);
    } else {
        lemma_upto_pairs(s, s.len() as int, j, i);
        lemma_pairs_of_symmetric(detected(s), s[j].entity, s[i].entity);
    }
}

/// The number of events between two entities does not depend on the order
/// of the table: two tables without shared entities that hold the same two
/// rows, wherever they stand, report the pair equally often.
pub proof fn lemma_detection_ignores_row_order(
    s: Seq<ColliderEntry>,
    t: Seq<ColliderEntry>,
    i: int,
    j: int,
    k: int,
    l: int,
)
    requires
        unique_entities(s),
        unique_entities(t),
        0 <= i < s.len(),
        0 <= j < s.len(),
        i != j,
        0 <= k < t.len(),
        0 <= l < t.len(),
        k != l,
        s[i] == t[k],
        s[j] == t[l],
    ensures
        pairs_of(detected(s), s[i].entity, s[j].entity) == pairs_of(detected(t), s[i].entity, s[j].entity),
{
    lemma_detected_once_per_overlapping_pair(s, i, j);
    lemma_detected_once_per_overlapping_pair(t, k, l);
}

proof fn lemma_pairs_of_symmetric(evs: Seq<AABBCollisionEvent>, a: EntityId, b: EntityId)
    ensures
        pairs_of(evs, a, b) == pairs_of(evs, b, a),
    decreases evs.len(),
{
    if evs.len() > 0 {
        lemma_pairs_of_symmetric(evs.drop_last(), a, b);
    }
}

/// Two colliders whose world rectangles only touch, or lie apart, on some
/// axis give no event.
pub proof fn lemma_edge_contact_gives_no_event(s: Seq<ColliderEntry>)
    requires
        s.len() == 2,
        ({
            let (a, b) = (s[0].world(), s[1].world());
            a.max.x <= b.min.x || b.max.x <= a.min.x || a.max.y <= b.min.y || b.max.y <= a.min.y
        }),
    ensures
        detected(s).len() == 0,
{
    assert(!pair_hits(s, 0, 1));
    assert(row_events(s, 0, 1) =~= Seq::<AABBCollisionEvent>::empty());
    assert(row_events(s, 0, 2) =~= Seq::<AABBCollisionEvent>::empty());
    assert(row_events(s, 1, 2) =~= Seq::<AABBCollisionEvent>::empty());
    assert(events_upto(s, 0) =~= Seq::<AABBCollisionEvent>::empty());
    assert(events_upto(s, 1) =~= Seq::<AABBCollisionEvent>::empty());
    assert(events_upto(s, 2) =~= Seq::<AABBCollisionEvent>::empty());
}

/// The outward distances of the center of `this` to the four sides of the
/// no-go zone: `other` grown on every side by half the size of `this`, so
/// that `this` can be treated as a point. The order is right, left, up, down.
pub open spec fn avoid_exit(this: Rect, other: Rect) -> (RectSegment, int) {
    let zone_min_x = other.min.x - this.hw();
    let zone_max_x = other.max.x + this.hw();
    let zone_min_y = other.min.y - this.hh();
    let zone_max_y = other.max.y + this.hh();
    nearest_exit(
        zone_max_x - this.cx(),
        this.cx() - zone_min_x,
        zone_max_y - this.cy(),
        this.cy() - zone_min_y,
    )
}

/// The move that takes `this` out of `other` by the nearest way.
pub open spec fn avoid_vector(this: Rect, other: Rect) -> (int, int) {
    exit_vector(avoid_exit(this, other))
}

/// Whether the move out of `other` is a grid value.
pub open spec fn avoid_fits(this: Rect, other: Rect) -> bool {
    avoid_exit(this, other).1 <= i32::MAX
}

/// The contact zone of `this` against `other`: the center of `this`
/// classified against `other`.
pub open spec fn contact_segment(this: Rect, other: Rect) -> RectSegment {
    normal_segment(other, this.spec_center())
}

fn avoid_exit_exec(this: Rect, other: Rect) -> (r: (RectSegment, i64))
    requires
        this.wf(),
        other.wf(),
    ensures
        r.0 == avoid_exit(this, other).0,
        r.1 == avoid_exit(this, other).1,
{
    let center = this.center();
    let half = this.half_size();
    let right = other.max.x as i64 + half.x as i64 - center.x as i64;
    let left = center.x as i64 - (other.min.x as i64 - half.x as i64);
    let up = other.max.y as i64 + half.y as i64 - center.y as i64;
    let down = center.y as i64 - (other.min.y as i64 - half.y as i64);
    nearest_exit_exec(right, left, up, down)
}

/// The distance of the move that takes `this` out of `other`, see
/// `avoid_exit`.
pub fn avoid_distance(this: Rect, other: Rect) -> (r: i64)
    requires
        this.wf(),
        other.wf(),
    ensures
        r == avoid_exit(this, other).1,
{
    avoid_exit_exec(this, other).1
}

impl AABBCollisionEvent {
    pub open spec fn wf(self) -> bool {
        self.l_bounds.wf() && self.r_bounds.wf()
    }

    pub open spec fn involves(self, e: EntityId) -> bool {
        e == self.l_entity || e == self.r_entity
    }

    /// The bounds of `this`, read from the left slot where it is there.
    pub open spec fn bounds_of(self, this: EntityId) -> Rect {
        if this == self.l_entity {
            self.l_bounds
        } else {
            self.r_bounds
        }
    }

    /// The bounds of the other party to the event.
    pub open spec fn other_bounds_of(self, this: EntityId) -> Rect {
        if this == self.l_entity {
            self.r_bounds
        } else {
            self.l_bounds
        }
    }

    pub open spec fn other_of(self, this: EntityId) -> EntityId {
        if this == self.l_entity {
            self.r_entity
        } else {
            self.l_entity
        }
    }

    pub fn contains(&self, e: EntityId) -> (r: bool)
        ensures
            r == self.involves(e),
    {
        e.id == self.l_entity.id || e.id == self.r_entity.id
    }

    /// The other party, or `None` where `this` is not a party to the event.
    pub fn try_other_entity(&self, this: EntityId) -> (r: Option<EntityId>)
        ensures
            r == (if self.involves(this) {
                Some(self.other_of(this))
            } else {
                None
            }),
    {
        if this.id == self.l_entity.id {
            return Some(self.r_entity);
        }
        if this.id == self.r_entity.id {
            return Some(self.l_entity);
        }
        None
    }

    /// The other party; `this` must be a party to the event.
    pub fn other_entity(&self, this: EntityId) -> (r: EntityId)
        requires
            self.involves(this),
        ensures
            r == self.other_of(this),
    {
        if this.id == self.l_entity.id {
            self.r_entity
        } else {
            self.l_entity
        }
    }

    /// The other party's bounds; `this` must be a party to the event.
    pub fn other_bounds(&self, this: EntityId) -> (r: Rect)
        requires
            self.involves(this),
        ensures
            r == self.other_bounds_of(this),
    {
        if this.id == self.l_entity.id {
            self.r_bounds
        } else {
            self.l_bounds
        }
    }

    /// The bounds of `this` and of the other party; `this` must be a party
    /// to the event.
    pub fn this_other_bounds(&self, this: EntityId) -> (r: (Rect, Rect))
        requires
            self.involves(this),
        ensures
            r.0 == self.bounds_of(this),
            r.1 == self.other_bounds_of(this),
    {
        if this.id == self.l_entity.id {
            (self.l_bounds, self.r_bounds)
        } else {
            (self.r_bounds, self.l_bounds)
        }
    }

    /// The direction of the contact normal for `this`: the side or corner
    /// of the other party's rectangle that the center of `this` lies at.
    pub fn normal_of(&self, this: EntityId) -> (r: Vec2)
        requires
            self.wf(),
            self.involves(this),
        ensures
            r.x == contact_segment(self.bounds_of(this), self.other_bounds_of(this)).sx(),
            r.y == contact_segment(self.bounds_of(this), self.other_bounds_of(this)).sy(),
    {
        let (this_bounds, other_bounds) = self.this_other_bounds(this);
        rect_seg_normal(other_bounds, this_bounds.center()).normal()
    }

    /// The move that takes `this` out of the other party's rectangle, see
    /// `avoid_exit`; zero where the two no longer overlap.
    pub fn to_avoid(&self, this: EntityId) -> (r: Vec2)
        requires
            self.wf(),
            self.involves(this),
            avoid_fits(self.bounds_of(this), self.other_bounds_of(this)),
        ensures
            r.x == avoid_vector(self.bounds_of(this), self.other_bounds_of(this)).0,
            r.y == avoid_vector(self.bounds_of(this), self.other_bounds_of(this)).1,
    {
        let (this_bounds, other_bounds) = self.this_other_bounds(this);
        exit_vector_exec(avoid_exit_exec(this_bounds, other_bounds))
    }
}

} // verus!

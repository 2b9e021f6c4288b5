use aabb_collision::collision::{AABBCollider, AABBCollisionEvent, ColliderEntry, EntityId};
use aabb_collision::geometry::{Rect, Transform, Vec2};
use aabb_collision::movement::{MoveKeys, TransformBoundsBox, TransformInputMover};
use aabb_collision::response::{
    avoid_position, bounce_velocity, try_avoid_position, AABBCollisionAvoider, AABBCollisionBouncer,
};

fn entry(id: u64, min: (i32, i32), max: (i32, i32)) -> ColliderEntry {
    ColliderEntry::new(
        AABBCollider { bounds: Rect::new(Vec2::new(min.0, min.1), Vec2::new(max.0, max.1)) },
        None,
        EntityId::new(id),
    )
}

fn event(l: u64, l_bounds: Rect, r: u64, r_bounds: Rect) -> AABBCollisionEvent {
    AABBCollisionEvent { l_entity: EntityId::new(l), l_bounds, r_entity: EntityId::new(r), r_bounds }
}

#[test]
fn from_size_is_centered_on_the_origin() {
    let c = AABBCollider::from_size(Vec2::new(30, 150));
    assert_eq!(c.bounds, Rect::new(Vec2::new(-15, -75), Vec2::new(15, 75)));
}

#[test]
fn overlapping_pair_gives_one_event() {
    let table = vec![entry(1, (0, 0), (10, 10)), entry(2, (5, 5), (15, 15))];
    let events = AABBCollider::fixedupdate_collisiondetect_system(&table);
    assert_eq!(events.len(), 1);
    assert_eq!(events[0].l_entity, EntityId::new(1));
    assert_eq!(events[0].r_entity, EntityId::new(2));
    assert_eq!(events[0].l_bounds, table[0].collider.bounds);
    assert_eq!(events[0].r_bounds, table[1].collider.bounds);
}

#[test]
fn each_overlapping_pair_once_and_no_self_pairs() {
    // entities 1 and 2 have identical bounds; 3 overlaps both; 4 is apart
    let table = vec![
        entry(1, (0, 0), (10, 10)),
        entry(2, (0, 0), (10, 10)),
        entry(3, (8, 8), (20, 20)),
        entry(4, (100, 100), (110, 110)),
    ];
    let events = AABBCollider::fixedupdate_collisiondetect_system(&table);
    let pairs: Vec<(u64, u64)> = events.iter().map(|e| (e.l_entity.id, e.r_entity.id)).collect();
    assert_eq!(pairs, vec![(1, 2), (1, 3), (2, 3)]);
    for e in &events {
        assert_ne!(e.l_entity, e.r_entity);
    }
    // the same set of pairs in another order of the table
    let reversed: Vec<ColliderEntry> = table.iter().rev().cloned().collect();
    let again = AABBCollider::fixedupdate_collisiondetect_system(&reversed);
    let mut unordered: Vec<(u64, u64)> = again
        .iter()
        .map(|e| (e.l_entity.id.min(e.r_entity.id), e.l_entity.id.max(e.r_entity.id)))
        .collect();
    unordered.sort();
    assert_eq!(unordered, vec![(1, 2), (1, 3), (2, 3)]);
}

#[test]
fn same_entity_twice_is_not_paired() {
    let table = vec![entry(7, (0, 0), (10, 10)), entry(7, (0, 0), (10, 10))];
    assert!(AABBCollider::fixedupdate_collisiondetect_system(&table).is_empty());
}

#[test]
fn rects_sharing_an_edge_do_not_collide() {
    let table = vec![entry(1, (0, 0), (10, 10)), entry(2, (10, 0), (20, 10))];
    assert!(AABBCollider::fixedupdate_collisiondetect_system(&table).is_empty());
    let corner = vec![entry(1, (0, 0), (10, 10)), entry(2, (10, 10), (20, 20))];
    assert!(AABBCollider::fixedupdate_collisiondetect_system(&corner).is_empty());
}

#[test]
fn detection_uses_world_rects() {
    let local = AABBCollider::from_size(Vec2::new(10, 10));
    let a = ColliderEntry::new(local, Some(Transform::from_translation(Vec2::new(0, 0))), EntityId::new(1));
    let b = ColliderEntry::new(local, Some(Transform::from_translation(Vec2::new(100, 0))), EntityId::new(2));
    assert!(AABBCollider::fixedupdate_collisiondetect_system(&vec![a, b]).is_empty());
    let big = ColliderEntry::new(
        local,
        Some(Transform::new(Vec2::new(100, 0), Vec2::new(20, 1))),
        EntityId::new(2),
    );
    let events = AABBCollider::fixedupdate_collisiondetect_system(&vec![a, big]);
    assert_eq!(events.len(), 1);
    assert_eq!(events[0].r_bounds, Rect::new(Vec2::new(0, -5), Vec2::new(200, 5)));
}

#[test]
fn event_accessors() {
    let a = Rect::new(Vec2::new(0, 0), Vec2::new(10, 10));
    let b = Rect::new(Vec2::new(5, 5), Vec2::new(15, 15));
    let ev = event(1, a, 2, b);
    let (one, two, three) = (EntityId::new(1), EntityId::new(2), EntityId::new(3));
    assert!(ev.contains(one) && ev.contains(two) && !ev.contains(three));
    assert_eq!(ev.try_other_entity(one), Some(two));
    assert_eq!(ev.try_other_entity(two), Some(one));
    assert_eq!(ev.try_other_entity(three), None);
    assert_eq!(ev.other_entity(two), one);
    assert_eq!(ev.other_bounds(one), b);
    assert_eq!(ev.other_bounds(two), a);
    assert_eq!(ev.this_other_bounds(two), (b, a));
}

#[test]
fn normal_of_points_out_of_the_other_rect() {
    // a ball left of a tall paddle
    let ball = Rect::from_center_half_size(Vec2::new(490, 10), Vec2::new(10, 10));
    let paddle = Rect::from_center_half_size(Vec2::new(515, 0), Vec2::new(15, 75));
    let ev = event(1, ball, 2, paddle);
    assert_eq!(ev.normal_of(EntityId::new(1)), Vec2::new(-1, 0));
    assert_eq!(ev.normal_of(EntityId::new(2)), Vec2::new(1, 0));
}

#[test]
fn to_avoid_pushes_out_by_the_nearest_way() {
    let wall = Rect::new(Vec2::new(0, 0), Vec2::new(100, 10));
    let body = Rect::from_center_half_size(Vec2::new(50, 12), Vec2::new(5, 5));
    let ev = event(1, body, 2, wall);
    // the body's lower side is 3 below the wall's top: 3 up
    assert_eq!(ev.to_avoid(EntityId::new(1)), Vec2::new(0, 3));
    // the wall leaves the body by its lower side: 3 down
    assert_eq!(ev.to_avoid(EntityId::new(2)), Vec2::new(0, -3));
    let apart = event(1, Rect::from_center_half_size(Vec2::new(50, 40), Vec2::new(5, 5)), 2, wall);
    assert_eq!(apart.to_avoid(EntityId::new(1)), Vec2::zero());
}

#[test]
fn avoider_applies_corrections_in_event_order() {
    let wall = Rect::new(Vec2::new(0, 0), Vec2::new(100, 10));
    let body = Rect::from_center_half_size(Vec2::new(50, 12), Vec2::new(5, 5));
    let side = Rect::new(Vec2::new(52, 0), Vec2::new(60, 40));
    let events = vec![event(1, body, 2, wall), event(3, side, 1, body), event(4, wall, 5, side)];
    // 3 up out of the wall, then 3 left out of the side wall
    assert_eq!(avoid_position(Vec2::new(50, 12), EntityId::new(1), &events), Vec2::new(47, 15));
    let mut query = vec![(Vec2::new(50, 12), EntityId::new(1)), (Vec2::new(7, 7), EntityId::new(9))];
    AABBCollisionAvoider::fixedupdate_system(&mut query, &events);
    assert_eq!(query, vec![(Vec2::new(47, 15), EntityId::new(1)), (Vec2::new(7, 7), EntityId::new(9))]);
}

#[test]
fn ball_bounces_off_a_paddle() {
    // a ball moving right and up strikes the left edge of a vertical paddle
    let ball = ColliderEntry::new(
        AABBCollider::from_size(Vec2::new(20, 20)),
        Some(Transform::from_translation(Vec2::new(492, 10))),
        EntityId::new(1),
    );
    let paddle = ColliderEntry::new(
        AABBCollider::from_size(Vec2::new(2, 2)),
        Some(Transform::new(Vec2::new(515, 0), Vec2::new(15, 75))),
        EntityId::new(2),
    );
    let events = AABBCollider::fixedupdate_collisiondetect_system(&vec![ball, paddle]);
    assert_eq!(events.len(), 1);
    assert_eq!(events[0].normal_of(EntityId::new(1)), Vec2::new(-1, 0));
    let mut velocities = vec![(Vec2::new(150, 150), EntityId::new(1))];
    AABBCollisionBouncer::fixedupdate_system(&mut velocities, &events);
    assert_eq!(velocities[0], (Vec2::new(-150, 150), EntityId::new(1)));
    assert_eq!(bounce_velocity(Vec2::new(150, 150), EntityId::new(2), &events), Vec2::new(-150, 150));
}

#[test]
fn ball_bounces_off_a_corner_diagonally() {
    let square = Rect::from_center_half_size(Vec2::new(0, 0), Vec2::new(10, 10));
    let ball = Rect::from_center_half_size(Vec2::new(14, 14), Vec2::new(5, 5));
    let events = vec![event(1, ball, 2, square)];
    assert_eq!(events[0].normal_of(EntityId::new(1)), Vec2::new(1, 1));
    assert_eq!(bounce_velocity(Vec2::new(-30, -10), EntityId::new(1), &events), Vec2::new(10, 30));
}

#[test]
fn mover_steps_by_held_keys() {
    let m = TransformInputMover { speed: Vec2::new(0, 300) };
    let up = MoveKeys { up: true, down: false, left: false, right: false };
    let both = MoveKeys { up: true, down: true, left: false, right: false };
    assert_eq!(m.step(up, Vec2::new(5, 10)), Vec2::new(5, 310));
    assert_eq!(m.step(both, Vec2::new(5, 10)), Vec2::new(5, 10));
    let mut query = vec![(m, up, Vec2::new(0, 0))];
    TransformInputMover::fixedupdate_move_system(&mut query);
    assert_eq!(query[0].2, Vec2::new(0, 300));
}

#[test]
fn bounds_box_clamps() {
    let b = TransformBoundsBox {
        upper_bounds: Some(225),
        lower_bounds: Some(-225),
        right_bounds: None,
        left_bounds: None,
    };
    assert_eq!(b.clamp(Vec2::new(999, 300)), Vec2::new(999, 225));
    assert_eq!(b.clamp(Vec2::new(-4, -300)), Vec2::new(-4, -225));
    assert_eq!(b.clamp(Vec2::new(1, 2)), Vec2::new(1, 2));
    let crossed = TransformBoundsBox {
        upper_bounds: None,
        lower_bounds: None,
        right_bounds: Some(-10),
        left_bounds: Some(10),
    };
    assert_eq!(crossed.clamp(Vec2::new(0, 0)), Vec2::new(10, 0));
    let mut query = vec![(b, Vec2::new(0, 1000))];
    TransformBoundsBox::fixedpostupdate_system(&mut query);
    assert_eq!(query[0].1, Vec2::new(0, 225));
}

#[test]
fn try_avoid_position_refuses_to_leave_the_grid() {
    let wall = Rect::new(Vec2::new(0, 0), Vec2::new(100, 10));
    let body = Rect::from_center_half_size(Vec2::new(50, 12), Vec2::new(5, 5));
    let events = vec![event(1, body, 2, wall)];
    assert_eq!(try_avoid_position(Vec2::new(50, 12), EntityId::new(1), &events), Some(Vec2::new(50, 15)));
    assert_eq!(try_avoid_position(Vec2::new(0, i32::MAX - 1), EntityId::new(1), &events), None);
    // an entity that is no party to any event stays where it is
    assert_eq!(try_avoid_position(Vec2::new(0, i32::MAX), EntityId::new(9), &events), Some(Vec2::new(0, i32::MAX)));
    // an event whose rectangle has an odd extent is not well formed
    let odd = vec![event(1, Rect::new(Vec2::new(0, 0), Vec2::new(3, 2)), 2, wall)];
    assert_eq!(try_avoid_position(Vec2::zero(), EntityId::new(9), &odd), None);
}

#[test]
fn resolvability_of_rows() {
    assert!(entry(1, (0, 0), (10, 10)).is_resolvable());
    assert!(!entry(1, (0, 0), (9, 10)).is_resolvable());
    let local = AABBCollider::from_size(Vec2::new(10, 10));
    let negative = ColliderEntry::new(local, Some(Transform::new(Vec2::zero(), Vec2::new(-1, 1))), EntityId::new(1));
    assert!(!negative.is_resolvable());
    let huge = ColliderEntry::new(local, Some(Transform::new(Vec2::zero(), Vec2::new(1 << 30, 1))), EntityId::new(1));
    assert!(!huge.is_resolvable());
    let far = ColliderEntry::new(local, Some(Transform::from_translation(Vec2::new(i32::MAX - 5, 0))), EntityId::new(1));
    assert!(far.is_resolvable());
}

#[test]
fn try_step_refuses_to_leave_the_grid() {
    let m = TransformInputMover { speed: Vec2::new(10, 10) };
    let right = MoveKeys { up: false, down: false, left: false, right: true };
    assert_eq!(m.try_step(right, Vec2::new(0, 0)), Some(Vec2::new(10, 0)));
    assert_eq!(m.try_step(right, Vec2::new(i32::MAX - 5, 0)), None);
}

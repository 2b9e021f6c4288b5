use aabb_collision::geometry::{Rect, Vec2};
use aabb_collision::segment::{
    rect_dist_outside, rect_outer_seg, rect_seg_from_center, rect_seg_normal, rect_to_outside,
    reflect, RectSegment,
};

fn square(cx: i32, cy: i32, half: i32) -> Rect {
    Rect::from_center_half_size(Vec2::new(cx, cy), Vec2::splat(half))
}

#[test]
fn rect_to_outside_tests() {
    assert!(rect_to_outside(square(0, 0, 10), Vec2::new(15, 10)) == Vec2::zero());
    assert!(rect_to_outside(square(0, 0, 10), Vec2::new(1, 10)) == Vec2::zero());
    assert!(rect_to_outside(square(0, 0, 10), Vec2::new(-25, 10)) == Vec2::zero());
    assert!(rect_to_outside(square(0, 0, 10), Vec2::new(100, -10)) == Vec2::zero());
    assert!(rect_to_outside(square(0, 0, 10), Vec2::new(10, -10)) == Vec2::zero());
    assert!(rect_to_outside(square(0, 5, 10), Vec2::new(0, -6)) == Vec2::zero());
    assert!(rect_to_outside(square(0, 0, 10), Vec2::new(0, -6)) == Vec2::new(0, -4));
    assert!(rect_to_outside(square(0, 0, 10), Vec2::new(8, 9)) == Vec2::new(0, 1));
    assert!(rect_to_outside(square(0, 0, 10), Vec2::new(9, -3)) == Vec2::new(1, 0));
    assert!(rect_to_outside(square(0, -5, 10), Vec2::new(0, -3)) == Vec2::new(0, 8));
}

#[test]
fn dist_outside_outside_point_is_middle_at_zero() {
    assert_eq!(rect_dist_outside(square(0, 0, 10), Vec2::new(11, 0)), (RectSegment::Middle, 0));
    assert_eq!(rect_dist_outside(square(0, 0, 10), Vec2::new(0, -11)), (RectSegment::Middle, 0));
}

#[test]
fn dist_outside_picks_nearest_side() {
    let r = square(0, 0, 10);
    assert_eq!(rect_dist_outside(r, Vec2::new(7, 0)), (RectSegment::Right, 3));
    assert_eq!(rect_dist_outside(r, Vec2::new(-7, 1)), (RectSegment::Left, 3));
    assert_eq!(rect_dist_outside(r, Vec2::new(1, 8)), (RectSegment::Up, 2));
    assert_eq!(rect_dist_outside(r, Vec2::new(1, -9)), (RectSegment::Down, 1));
}

#[test]
fn dist_outside_ties_go_to_the_later_side() {
    let r = square(0, 0, 10);
    // all four sides at 10: down is the last in the order right, left, up, down
    assert_eq!(rect_dist_outside(r, Vec2::new(0, 0)), (RectSegment::Down, 10));
    // up is nearest alone
    assert_eq!(rect_dist_outside(r, Vec2::new(0, 1)), (RectSegment::Up, 9));
    // right and up tie at 2
    assert_eq!(rect_dist_outside(r, Vec2::new(8, 8)), (RectSegment::Up, 2));
    // right and left tie at 10 below up and down
    assert_eq!(rect_dist_outside(Rect::from_center_half_size(Vec2::zero(), Vec2::new(10, 20)), Vec2::zero()), (RectSegment::Left, 10));
}

#[test]
fn to_outside_on_the_boundary_is_zero() {
    assert_eq!(rect_to_outside(square(0, 0, 10), Vec2::new(10, 3)), Vec2::zero());
}

#[test]
fn outer_segment_covers_all_nine_zones() {
    let r = square(0, 0, 10);
    assert_eq!(rect_outer_seg(r, Vec2::new(0, 0)), RectSegment::Middle);
    assert_eq!(rect_outer_seg(r, Vec2::new(-11, 0)), RectSegment::Left);
    assert_eq!(rect_outer_seg(r, Vec2::new(11, 0)), RectSegment::Right);
    assert_eq!(rect_outer_seg(r, Vec2::new(0, 11)), RectSegment::Up);
    assert_eq!(rect_outer_seg(r, Vec2::new(0, -11)), RectSegment::Down);
    assert_eq!(rect_outer_seg(r, Vec2::new(-11, 11)), RectSegment::UpperLeft);
    assert_eq!(rect_outer_seg(r, Vec2::new(11, 11)), RectSegment::UpperRight);
    assert_eq!(rect_outer_seg(r, Vec2::new(-11, -11)), RectSegment::LowerLeft);
    assert_eq!(rect_outer_seg(r, Vec2::new(11, -11)), RectSegment::LowerRight);
}

#[test]
fn outer_segment_is_middle_on_the_closed_rect() {
    let r = square(0, 0, 10);
    for x in -12..=12 {
        for y in -12..=12 {
            let inside = (-10..=10).contains(&x) && (-10..=10).contains(&y);
            assert_eq!(rect_outer_seg(r, Vec2::new(x, y)) == RectSegment::Middle, inside);
        }
    }
}

#[test]
fn segment_from_center() {
    let r = square(4, 4, 2);
    assert_eq!(rect_seg_from_center(r, Vec2::new(4, 4)), RectSegment::Middle);
    assert_eq!(rect_seg_from_center(r, Vec2::new(5, 4)), RectSegment::Right);
    assert_eq!(rect_seg_from_center(r, Vec2::new(3, 100)), RectSegment::UpperLeft);
    assert_eq!(rect_seg_from_center(r, Vec2::new(4, 0)), RectSegment::Down);
}

#[test]
fn segment_normal_is_measured_in_half_sizes() {
    // a wide, flat rect: a point above its right end is on the upper side
    let r = Rect::from_center_half_size(Vec2::zero(), Vec2::new(5, 1));
    assert_eq!(rect_seg_normal(r, Vec2::new(5, 2)), RectSegment::Up);
    assert_eq!(rect_seg_normal(r, Vec2::new(12, 2)), RectSegment::Right);
    // equal offsets keep the corner
    assert_eq!(rect_seg_normal(r, Vec2::new(10, 2)), RectSegment::UpperRight);
    assert_eq!(rect_seg_normal(r, Vec2::new(-10, -2)), RectSegment::LowerLeft);
    assert_eq!(rect_seg_normal(r, Vec2::new(0, 0)), RectSegment::Middle);
}

#[test]
fn normals_of_all_zones() {
    assert_eq!(RectSegment::Middle.normal(), Vec2::new(0, 0));
    assert_eq!(RectSegment::Left.normal(), Vec2::new(-1, 0));
    assert_eq!(RectSegment::Right.normal(), Vec2::new(1, 0));
    assert_eq!(RectSegment::Up.normal(), Vec2::new(0, 1));
    assert_eq!(RectSegment::Down.normal(), Vec2::new(0, -1));
    assert_eq!(RectSegment::UpperLeft.normal(), Vec2::new(-1, 1));
    assert_eq!(RectSegment::UpperRight.normal(), Vec2::new(1, 1));
    assert_eq!(RectSegment::LowerLeft.normal(), Vec2::new(-1, -1));
    assert_eq!(RectSegment::LowerRight.normal(), Vec2::new(1, -1));
}

#[test]
fn reflect_values() {
    let v = Vec2::new(150, 150);
    assert_eq!(reflect(v, RectSegment::Left), Vec2::new(-150, 150));
    assert_eq!(reflect(Vec2::new(3, -7), RectSegment::Up), Vec2::new(3, 7));
    assert_eq!(reflect(Vec2::new(3, -7), RectSegment::UpperRight), Vec2::new(7, -3));
    assert_eq!(reflect(Vec2::new(3, -7), RectSegment::LowerRight), Vec2::new(-7, 3));
    assert_eq!(reflect(Vec2::new(3, -7), RectSegment::Middle), Vec2::new(3, -7));
}

#[test]
fn reflect_preserves_speed() {
    let all = [
        RectSegment::Middle,
        RectSegment::Left,
        RectSegment::Right,
        RectSegment::Up,
        RectSegment::Down,
        RectSegment::UpperLeft,
        RectSegment::UpperRight,
        RectSegment::LowerLeft,
        RectSegment::LowerRight,
    ];
    for v in [Vec2::new(150, 150), Vec2::new(-3, 8), Vec2::new(0, -12), Vec2::new(i32::MAX, -5)] {
        for seg in all {
            let r = reflect(v, seg);
            let before = (v.x as i64).pow(2) + (v.y as i64).pow(2);
            let after = (r.x as i64).pow(2) + (r.y as i64).pow(2);
            assert_eq!(before, after);
        }
    }
}

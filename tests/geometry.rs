use space_shooter::geometry::{
    aabb_overlap, distance_squared, isqrt, ray_circle_intersection, scale_to, Collider, Direction,
    Point,
};

fn p(x: i32, y: i32) -> Point {
    Point { x, y }
}

#[test]
fn distance_squared_is_exact() {
    assert_eq!(distance_squared(p(0, 0), p(3, 4)), 25);
    assert_eq!(distance_squared(p(-2, 7), p(-2, 7)), 0);
    let far = distance_squared(p(i32::MIN, i32::MIN), p(i32::MAX, i32::MAX));
    assert_eq!(far, 2 * (u32::MAX as u128) * (u32::MAX as u128));
}

#[test]
fn boxes_overlap_only_when_closer_than_half_extents() {
    let c = Collider { half_width: 8, half_height: 8 };
    assert!(aabb_overlap(p(0, 0), c, p(15, 0), c));
    assert!(!aabb_overlap(p(0, 0), c, p(16, 0), c));
    assert!(!aabb_overlap(p(0, 0), c, p(0, -16), c));
    assert!(aabb_overlap(p(0, 0), c, p(-15, 15), c));
    let tall = Collider { half_width: 8, half_height: 24 };
    assert!(aabb_overlap(p(0, 0), tall, p(0, 31), c));
}

#[test]
fn integer_square_root_rounds_down() {
    assert_eq!(isqrt(0), 0);
    assert_eq!(isqrt(15), 3);
    assert_eq!(isqrt(16), 4);
    assert_eq!(isqrt(17), 4);
    let big = (u64::MAX as u128) * (u64::MAX as u128);
    assert_eq!(isqrt(big), u64::MAX);
    assert_eq!(isqrt(u128::MAX), u64::MAX);
}

#[test]
fn ray_meets_circle_in_front() {
    let right = Direction { x: 1, y: 0 };
    assert_eq!(ray_circle_intersection(p(0, 0), right, p(26, 0), 16), Some(10));
    // a longer direction scales the reach by its length
    let right10 = Direction { x: 10, y: 0 };
    assert_eq!(ray_circle_intersection(p(0, 0), right10, p(26, 0), 16), Some(100));
    // grazing at exactly the radius still hits
    assert_eq!(ray_circle_intersection(p(0, 0), right, p(30, 16), 16), Some(30));
}

#[test]
fn ray_misses_circle_behind_or_aside() {
    let right = Direction { x: 1, y: 0 };
    assert_eq!(ray_circle_intersection(p(0, 0), right, p(-26, 0), 16), None);
    assert_eq!(ray_circle_intersection(p(0, 0), right, p(26, 17), 16), None);
    let none = Direction { x: 0, y: 0 };
    assert_eq!(ray_circle_intersection(p(0, 0), none, p(5, 0), 16), None);
}

#[test]
fn ray_starting_inside_circle_has_negative_reach() {
    let right = Direction { x: 1, y: 0 };
    assert_eq!(ray_circle_intersection(p(0, 0), right, p(10, 0), 16), Some(-6));
}

#[test]
fn scaling_keeps_direction() {
    assert_eq!(scale_to(3, 4, 10), (6, 8));
    assert_eq!(scale_to(-3, 4, 10), (-6, 8));
    assert_eq!(scale_to(0, -7, 100), (0, -100));
    assert_eq!(scale_to(0, 0, 5), (0, 0));
    assert_eq!(scale_to(1, 1, 10), (10, 10));
}

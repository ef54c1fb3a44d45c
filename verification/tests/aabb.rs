use pathtracer::aabb::{max, min, RaySlabs, AABB};
use pathtracer::math::{Axis, Point};

/// The rank of a real number: an integer that is ordered as the number is.
fn rank(x: f64) -> i64 {
    let bits = x.to_bits() as i64;
    bits ^ ((((bits >> 63) as u64) >> 1) as i64)
}

/// The crossings of a ray with the planes of the unit box on each axis.
fn unit_box_slabs(origin: [f64; 3], direction: [f64; 3]) -> RaySlabs {
    let pair = |a: usize| {
        (rank((0.0 - origin[a]) / direction[a]), rank((1.0 - origin[a]) / direction[a]))
    };
    RaySlabs { x: pair(0), y: pair(1), z: pair(2) }
}

#[test]
fn hit_bounding_box() {
    let ray_in_box = unit_box_slabs([0.5, 0.5, 0.5], [1.0, 1.0, 1.0]);
    let ray_out_box = unit_box_slabs([0.0, 0.0, -0.5], [0.1, 0.1, 1.0]);
    let ray_flat = unit_box_slabs([0.5, 0.5, 0.5], [0.0, 0.0, 1.0]);

    assert!(ray_in_box.hit(rank(f64::MIN), rank(f64::MAX)));
    assert!(ray_out_box.hit(rank(f64::MIN), rank(f64::MAX)));
    assert!(ray_flat.hit(rank(f64::MIN), rank(f64::MAX)));
}

#[test]
fn miss_bounding_box() {
    let ray_missing = unit_box_slabs([2.0, 2.0, 2.0], [1.0, 0.01, 0.01]);
    let ray_flat = unit_box_slabs([100.0, 100.0, 100.0], [1.0, 0.0, 0.0]);

    assert!(!ray_missing.hit(rank(f64::MIN), rank(f64::MAX)));
    assert!(!ray_flat.hit(rank(f64::MIN), rank(f64::MAX)));
}

#[test]
fn rank_keeps_the_order_of_the_reals() {
    let values = [f64::NEG_INFINITY, f64::MIN, -1.5, -0.0001, 0.0, 0.0001, 1.0, f64::MAX, f64::INFINITY];
    for w in values.windows(2) {
        assert!(rank(w[0]) < rank(w[1]));
    }
}

#[test]
fn merge_spans_both_boxes() {
    let a = AABB::new(Point::new(0, 0, 0), Point::new(1, 1, 1));
    let b = AABB::new(Point::new(-2, 3, 0), Point::new(0, 5, 4));
    let m = AABB::surrounding_box(&a, &b);
    assert_eq!(m.minimum(), Point::new(-2, 0, 0));
    assert_eq!(m.maximum(), Point::new(1, 5, 4));
}

#[test]
fn merge_is_commutative_associative_and_idempotent() {
    let a = AABB::new(Point::new(0, 7, -3), Point::new(4, 9, 0));
    let b = AABB::new(Point::new(-2, 8, -1), Point::new(1, 20, 5));
    let c = AABB::new(Point::new(3, 3, 3), Point::new(3, 3, 3));
    assert_eq!(AABB::surrounding_box(&a, &b), AABB::surrounding_box(&b, &a));
    assert_eq!(
        AABB::surrounding_box(&AABB::surrounding_box(&a, &b), &c),
        AABB::surrounding_box(&a, &AABB::surrounding_box(&b, &c))
    );
    assert_eq!(AABB::surrounding_box(&a, &a), a);
}

#[test]
fn merge_of_a_box_with_one_inside_it_is_the_outer_box() {
    let outer = AABB::new(Point::new(-5, -5, -5), Point::new(5, 5, 5));
    let inner = AABB::new(Point::new(-1, 0, 2), Point::new(1, 1, 3));
    assert_eq!(AABB::surrounding_box(&outer, &inner), outer);
    assert_eq!(AABB::surrounding_box(&inner, &outer), outer);
}

#[test]
fn new_keeps_the_corners_as_given() {
    let b = AABB::new(Point::new(1, 2, 3), Point::new(4, 5, 6));
    assert_eq!(b.minimum(), Point::new(1, 2, 3));
    assert_eq!(b.maximum(), Point::new(4, 5, 6));
}

#[test]
fn min_and_max_of_ranks() {
    assert_eq!(min(3, -4), -4);
    assert_eq!(max(3, -4), 3);
    assert_eq!(min(i64::MIN, i64::MAX), i64::MIN);
    assert_eq!(max(7, 7), 7);
}

#[test]
fn slab_test_needs_a_stretch_inside_all_three_slabs() {
    let slabs = RaySlabs { x: (0, 10), y: (12, 2), z: (5, 7) };
    assert_eq!(slabs.pair(Axis::Y), (12, 2));
    assert!(slabs.hit(0, 100));
    assert!(slabs.hit(5, 7));
    // Nothing is left where the range ends at the last entry.
    assert!(!slabs.hit(0, 5));
    assert!(!slabs.hit(7, 100));
    let apart = RaySlabs { x: (0, 3), y: (4, 9), z: (0, 9) };
    assert!(!apart.hit(-100, 100));
    let touching = RaySlabs { x: (0, 4), y: (4, 9), z: (0, 9) };
    assert!(!touching.hit(-100, 100));
}

#[test]
fn corners_come_in_the_order_of_their_numbers() {
    let b = AABB::new(Point::new(1, 2, 3), Point::new(4, 5, 6));
    let c = b.corners();
    assert_eq!(
        c,
        vec![
            Point::new(1, 2, 3),
            Point::new(1, 2, 6),
            Point::new(1, 5, 3),
            Point::new(1, 5, 6),
            Point::new(4, 2, 3),
            Point::new(4, 2, 6),
            Point::new(4, 5, 3),
            Point::new(4, 5, 6),
        ]
    );
}

#[test]
fn enclosing_box_of_points() {
    assert_eq!(AABB::enclosing(&vec![]), None);
    let one = AABB::enclosing(&vec![Point::new(3, -1, 8)]).unwrap();
    assert_eq!(one, AABB::new(Point::new(3, -1, 8), Point::new(3, -1, 8)));
    let several = AABB::enclosing(&vec![
        Point::new(3, -1, 8),
        Point::new(-7, 4, 8),
        Point::new(0, 0, 9),
        Point::new(2, 11, -6),
    ])
    .unwrap();
    assert_eq!(several, AABB::new(Point::new(-7, -1, -6), Point::new(3, 11, 9)));
}

#[test]
fn points_by_axis() {
    let p = Point::new(10, 20, 30);
    assert_eq!(p.get(Axis::X), 10);
    assert_eq!(p.get(Axis::Y), 20);
    assert_eq!(p.get(Axis::Z), 30);
    assert_eq!(Axis::X.index(), 0);
    assert_eq!(Axis::Y.index(), 1);
    assert_eq!(Axis::Z.index(), 2);
    assert_eq!(p.lower(Point::new(11, 19, 30)), Point::new(10, 19, 30));
    assert_eq!(p.upper(Point::new(11, 19, 30)), Point::new(11, 20, 30));
}

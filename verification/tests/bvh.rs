use pathtracer::aabb::AABB;
use pathtracer::arrange::{key, sort_along};
use pathtracer::bvh::{axis_of, order_pair, BVHNode, BvhError, Child};
use pathtracer::hittable::{scan, HittableList};
use pathtracer::math::{Axis, Point};
use pathtracer::record::{limit, prefer, Face, HitRecord};

fn cube(at: (i64, i64, i64), side: i64) -> AABB {
    AABB::new(Point::new(at.0, at.1, at.2), Point::new(at.0 + side, at.1 + side, at.2 + side))
}

fn list_of(boxes: &[Option<AABB>]) -> HittableList {
    let mut list = HittableList::new();
    for b in boxes {
        list.add(*b);
    }
    list
}

/// A scattered set of boxes, the same on every run.
fn scattered(n: usize) -> Vec<Option<AABB>> {
    let mut state: i64 = 12345;
    let mut next = move || {
        state = (state * 1103515245 + 12345) % 2147483648;
        state % 1000 - 500
    };
    (0..n).map(|_| Some(cube((next(), next(), next()), 1 + next().abs() % 50))).collect()
}

/// The places of the objects below a node, from left to right.
fn leaves(node: &BVHNode, into: &mut Vec<usize>) {
    for child in [node.left(), node.right()] {
        match child {
            Child::Leaf(i) => into.push(*i),
            Child::Inner(inner) => leaves(inner, into),
        }
    }
}

/// Whether each node's box is the merge of the boxes of its children.
fn boxes_are_merged(node: &BVHNode, objects: &[Option<AABB>]) -> bool {
    let side = |child: &Child| match child {
        Child::Leaf(i) => objects[*i].unwrap(),
        Child::Inner(inner) => inner.bounding_box(),
    };
    let below = |child: &Child| match child {
        Child::Leaf(_) => true,
        Child::Inner(inner) => boxes_are_merged(inner, objects),
    };
    node.bounding_box() == AABB::surrounding_box(&side(node.left()), &side(node.right()))
        && below(node.left())
        && below(node.right())
}

#[test]
fn aggregate_has_no_box_when_empty_or_unbounded() {
    assert_eq!(HittableList::new().bounding_box(), None);
    assert_eq!(HittableList::new().len(), 0);
    let list = list_of(&[Some(cube((0, 0, 0), 1)), None, Some(cube((5, 5, 5), 1))]);
    assert_eq!(list.len(), 3);
    assert_eq!(list.bounding_box(), None);
}

#[test]
fn aggregate_box_is_the_hull_of_its_objects() {
    let list = list_of(&[Some(cube((0, 0, 0), 1)), Some(cube((-4, 2, 9), 3)), Some(cube((5, -5, 5), 1))]);
    assert_eq!(list.bounding_box(), Some(AABB::new(Point::new(-4, -5, 0), Point::new(6, 5, 12))));
    let single = list_of(&[Some(cube((7, 8, 9), 2))]);
    assert_eq!(single.bounding_box(), Some(cube((7, 8, 9), 2)));
    assert_eq!(single.as_raw(), vec![Some(cube((7, 8, 9), 2))]);
}

#[test]
fn hierarchy_of_nothing_fails() {
    assert_eq!(BVHNode::new(HittableList::new()).err(), Some(BvhError::Empty));
}

#[test]
fn hierarchy_names_the_first_object_without_a_box() {
    let list = list_of(&[Some(cube((0, 0, 0), 1)), None, Some(cube((5, 5, 5), 1)), None]);
    assert_eq!(BVHNode::new(list).err(), Some(BvhError::Unbounded(1)));
}

#[test]
fn hierarchy_of_one_object_holds_it_twice() {
    let only = cube((3, 4, 5), 2);
    let node = BVHNode::new(list_of(&[Some(only)])).unwrap();
    assert!(matches!(node.left(), Child::Leaf(0)));
    assert!(matches!(node.right(), Child::Leaf(0)));
    assert_eq!(node.bounding_box(), only);
}

#[test]
fn hierarchy_of_two_objects_orders_them() {
    // On every axis the second object lies below the first.
    let boxes = [Some(cube((10, 10, 10), 1)), Some(cube((0, 0, 0), 1))];
    for _ in 0..20 {
        let node = BVHNode::new(list_of(&boxes)).unwrap();
        assert!(matches!(node.left(), Child::Leaf(1)));
        assert!(matches!(node.right(), Child::Leaf(0)));
    }
    let boxes = [Some(cube((0, 0, 0), 1)), Some(cube((10, 10, 10), 1))];
    for _ in 0..20 {
        let node = BVHNode::new(list_of(&boxes)).unwrap();
        assert!(matches!(node.left(), Child::Leaf(0)));
        assert!(matches!(node.right(), Child::Leaf(1)));
    }
}

#[test]
fn hierarchy_of_two_equal_objects_swaps_them() {
    let boxes = [Some(cube((1, 1, 1), 1)), Some(cube((1, 1, 1), 4))];
    for _ in 0..20 {
        let node = BVHNode::new(list_of(&boxes)).unwrap();
        assert!(matches!(node.left(), Child::Leaf(1)));
        assert!(matches!(node.right(), Child::Leaf(0)));
    }
}

#[test]
fn hierarchy_splits_in_the_middle() {
    // Ordered alike on every axis, so that the draw of the axis does not show.
    let boxes: Vec<Option<AABB>> = [4, 0, 3, 1, 2].iter().map(|&i| Some(cube((i, i, i), 1))).collect();
    for _ in 0..20 {
        let node = BVHNode::new(list_of(&boxes)).unwrap();
        let mut found = Vec::new();
        leaves(&node, &mut found);
        // Two objects on the left, three on the right, of which one stands alone.
        assert_eq!(found, vec![1, 3, 4, 4, 2, 0]);
    }
}

#[test]
fn hierarchy_root_box_is_the_aggregate_box() {
    for n in [1usize, 2, 3, 4, 7, 16, 33, 100] {
        let boxes = scattered(n);
        let expected = list_of(&boxes).bounding_box().unwrap();
        let node = BVHNode::new(list_of(&boxes)).unwrap();
        assert_eq!(node.bounding_box(), expected);
        assert!(boxes_are_merged(&node, &boxes));
        let mut found = Vec::new();
        leaves(&node, &mut found);
        found.sort();
        found.dedup();
        assert_eq!(found, (0..n).collect::<Vec<usize>>());
    }
}

#[test]
fn objects_are_sorted_by_the_minimum_of_their_boxes() {
    let objects = vec![
        Some(AABB::new(Point::new(5, 0, 2), Point::new(9, 9, 9))),
        Some(AABB::new(Point::new(1, 7, 2), Point::new(9, 9, 9))),
        Some(AABB::new(Point::new(3, 3, 2), Point::new(9, 9, 9))),
        Some(AABB::new(Point::new(1, 1, 2), Point::new(9, 9, 9))),
    ];
    let items = vec![0, 1, 2, 3];
    assert_eq!(key(&objects, 2, Axis::X), 3);
    assert_eq!(key(&objects, 1, Axis::Y), 7);
    assert_eq!(sort_along(&objects, &items, Axis::X), vec![1, 3, 2, 0]);
    assert_eq!(sort_along(&objects, &items, Axis::Y), vec![0, 3, 2, 1]);
    // Equal keys keep their order.
    assert_eq!(sort_along(&objects, &items, Axis::Z), vec![0, 1, 2, 3]);
    assert_eq!(sort_along(&objects, &vec![3, 1], Axis::X), vec![3, 1]);
    assert_eq!(sort_along(&objects, &vec![], Axis::X), Vec::<usize>::new());
}

#[test]
fn pairs_are_ordered_along_the_axis() {
    let objects = vec![Some(cube((5, 0, 2), 1)), Some(cube((1, 7, 2), 1))];
    assert_eq!(order_pair(&objects, 0, 1, Axis::X), (1, 0));
    assert_eq!(order_pair(&objects, 0, 1, Axis::Y), (0, 1));
    assert_eq!(order_pair(&objects, 0, 1, Axis::Z), (1, 0));
    assert_eq!(axis_of(0), Axis::X);
    assert_eq!(axis_of(1), Axis::Y);
    assert_eq!(axis_of(2), Axis::Z);
}

fn hit_at(t: i64, material: usize) -> HitRecord {
    HitRecord::new(Point::new(0, 0, 0), t, 0, 0, Point::new(0, 0, 1), Point::new(0, 0, -1), -1, 0, material)
}

#[test]
fn scan_keeps_the_nearest_hit() {
    let crossings = [Some(40), None, Some(25), Some(60), Some(25)];
    let probe = |i: usize, t_min: i64, t_max: i64| match crossings[i] {
        Some(t) if t_min <= t && t <= t_max => Some(hit_at(t, i)),
        _ => None,
    };
    let found = scan(crossings.len(), &probe, 0, 100).unwrap();
    assert_eq!(found.t, 25);
    // Of two objects equally far, the later one replaces the earlier.
    assert_eq!(found.material, 4);
    assert_eq!(found.face, Face::Front);
    assert_eq!(scan(crossings.len(), &probe, 0, 24), None);
    assert_eq!(scan(crossings.len(), &probe, 26, 100).unwrap().t, 40);
    assert_eq!(scan(0, &probe, 0, 100), None);
    assert_eq!(list_of(&[None, None, None]).hit(&probe, 0, 100).unwrap().t, 25);
}

#[test]
fn limit_and_preference() {
    assert_eq!(limit(None, 77), 77);
    assert_eq!(limit(Some(hit_at(5, 0)), 77), 5);
    assert_eq!(prefer(None, None), None);
    assert_eq!(prefer(Some(hit_at(5, 0)), None), Some(hit_at(5, 0)));
    assert_eq!(prefer(None, Some(hit_at(6, 1))), Some(hit_at(6, 1)));
    assert_eq!(prefer(Some(hit_at(5, 0)), Some(hit_at(4, 1))), Some(hit_at(4, 1)));
}

#[test]
fn hierarchy_finds_what_a_scan_finds() {
    // The ray runs along x; object i is crossed where its box begins on x.
    for n in [1usize, 2, 3, 5, 8, 21, 64] {
        let boxes = scattered(n);
        let probe = |i: usize, t_min: i64, t_max: i64| {
            let t = boxes[i].unwrap().minimum().x;
            if t_min <= t && t <= t_max { Some(hit_at(t, i)) } else { None }
        };
        let inside = |b: AABB, t_min: i64, t_max: i64| {
            let lo = b.minimum().x.max(t_min);
            let hi = b.maximum().x.min(t_max);
            lo < hi
        };
        let node = BVHNode::new(list_of(&boxes)).unwrap();
        for (t_min, t_max) in [(-1000, 1000), (-100, 100), (0, 50), (200, 300), (-600, -400)] {
            let by_scan = scan(n, &probe, t_min, t_max).map(|h| h.t);
            let by_hierarchy = node.hit(&probe, &inside, t_min, t_max).map(|h| h.t);
            assert_eq!(by_hierarchy, by_scan);
        }
    }
}

#[test]
fn hierarchy_finds_nothing_where_the_ray_misses_its_box() {
    let boxes = scattered(9);
    let probe = |i: usize, _: i64, _: i64| Some(hit_at(1, i));
    let never = |_: AABB, _: i64, _: i64| false;
    let node = BVHNode::new(list_of(&boxes)).unwrap();
    assert_eq!(node.hit(&probe, &never, 0, 100), None);
    let always = |_: AABB, _: i64, _: i64| true;
    assert_eq!(node.hit(&probe, &always, 0, 100).unwrap().t, 1);
}

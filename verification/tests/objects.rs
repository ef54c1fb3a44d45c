use pathtracer::aabb::AABB;
use pathtracer::math::Point;
use pathtracer::objects::{first_in_range, MovingSphere, Sphere};
use pathtracer::record::{Crossing, Face, HitRecord};
use pathtracer::rectangle::{Cuboid, Padding, Side, XyRectangle, XzRectangle, YzRectangle};

fn rank(x: f64) -> i64 {
    let bits = x.to_bits() as i64;
    bits ^ ((((bits >> 63) as u64) >> 1) as i64)
}

fn rank3(v: [f64; 3]) -> Point {
    Point::new(rank(v[0]), rank(v[1]), rank(v[2]))
}

fn dot(a: [f64; 3], b: [f64; 3]) -> f64 {
    a[0] * b[0] + a[1] * b[1] + a[2] * b[2]
}

/// The rank of the discriminant of the equation of a ray and a sphere.
fn discriminant(origin: [f64; 3], direction: [f64; 3], center: [f64; 3], radius: f64) -> i64 {
    let oc = [origin[0] - center[0], origin[1] - center[1], origin[2] - center[2]];
    rank(dot(oc, direction).powi(2) - dot(direction, direction) * (dot(oc, oc) - radius.powi(2)))
}

/// The two places where a ray meets a sphere, the nearer first.
fn sphere_roots(origin: [f64; 3], direction: [f64; 3], center: [f64; 3], radius: f64) -> Option<(Crossing, Crossing)> {
    let oc = [origin[0] - center[0], origin[1] - center[1], origin[2] - center[2]];
    let a = dot(direction, direction);
    let half_b = dot(oc, direction);
    let c = dot(oc, oc) - radius.powi(2);
    let sqrtd = (half_b.powi(2) - a * c).sqrt();
    let at = |t: f64| {
        let p = [origin[0] + t * direction[0], origin[1] + t * direction[1], origin[2] + t * direction[2]];
        let outward = [(p[0] - center[0]) / radius, (p[1] - center[1]) / radius, (p[2] - center[2]) / radius];
        Crossing {
            t: rank(t),
            p: rank3(p),
            u: rank(0.0),
            v: rank(0.0),
            outward_normal: rank3(outward),
            reversed_normal: rank3([-outward[0], -outward[1], -outward[2]]),
            dot: rank(dot(direction, outward)),
            zero: rank(0.0),
        }
    };
    Some((at((-half_b - sqrtd) / a), at((-half_b + sqrtd) / a)))
}

fn unrank(k: i64) -> f64 {
    f64::from_bits((k ^ ((((k >> 63) as u64) >> 1) as i64)) as u64)
}

fn unrank3(p: Point) -> [f64; 3] {
    [unrank(p.x), unrank(p.y), unrank(p.z)]
}

#[test]
fn outward_ray_hit() {
    let center = [0.0, 0.0, -1.0];
    let sphere = Sphere::new(rank3(center), rank(0.5), 0);

    // This ray once hit the sphere again right where it had left it.
    let origin = [0.0, 0.0, 0.0];
    let direction = [-0.07757490284849644, 0.5715330690568323, -1.0];

    let hit = sphere
        .hit(
            discriminant(origin, direction, center, 0.5),
            rank(0.0),
            &|| sphere_roots(origin, direction, center, 0.5),
            rank(0.0),
            rank(f64::MAX),
        )
        .unwrap();
    let second_hit = sphere.hit(
        discriminant(unrank3(hit.p), unrank3(hit.normal), center, 0.5),
        rank(0.0),
        &|| sphere_roots(unrank3(hit.p), unrank3(hit.normal), center, 0.5),
        rank(0.0001),
        rank(f64::MAX),
    );

    assert_eq!(Face::Front, hit.face);
    assert!(second_hit.is_none());
}

#[test]
fn rank_and_unrank_are_inverse() {
    for x in [0.0, 1.0, -1.0, 0.5715330690568323, -1e300, f64::MAX, f64::MIN, f64::INFINITY, f64::NEG_INFINITY] {
        assert_eq!(unrank(rank(x)), x);
    }
}

fn at(t: i64) -> Crossing {
    crossing(t, Point::new(t, t, t), false)
}

#[test]
fn sphere_is_hit_at_the_nearer_root_in_range() {
    let roots = Some((at(3), at(9)));
    assert_eq!(first_in_range(None, 0, 100), None);
    assert_eq!(first_in_range(roots, 0, 100), Some(at(3)));
    assert_eq!(first_in_range(roots, 3, 3), Some(at(3)));
    assert_eq!(first_in_range(roots, 4, 100), Some(at(9)));
    assert_eq!(first_in_range(roots, 4, 9), Some(at(9)));
    assert_eq!(first_in_range(roots, 4, 8), None);
    assert_eq!(first_in_range(roots, 10, 100), None);
    assert_eq!(first_in_range(roots, -5, 2), None);
}

#[test]
fn sphere_records_its_material() {
    let sphere = Sphere::new(Point::new(0, 0, 0), 5, 7);
    assert_eq!((sphere.center, sphere.radius, sphere.material), (Point::new(0, 0, 0), 5, 7));
    let roots = || Some((at(3), at(9)));
    assert_eq!(sphere.hit(1, 0, &roots, 0, 100), Some(at(3).record(7)));
    assert_eq!(sphere.hit(0, 0, &roots, 0, 100), Some(at(3).record(7)));
    assert_eq!(sphere.hit(1, 0, &roots, 5, 100), Some(at(9).record(7)));
    assert_eq!(sphere.hit(1, 0, &roots, 10, 100), None);
    assert_eq!(sphere.hit(1, 0, &|| None, 0, 100), None);
}

#[test]
fn moving_sphere_is_bounded_over_the_exposure() {
    let sphere = MovingSphere::new(Point::new(0, 0, 0), Point::new(0, 4, 0), 0, 1, 2, 3);
    assert_eq!((sphere.start_time, sphere.end_time, sphere.radius, sphere.material), (0, 1, 2, 3));
    assert_eq!(sphere.hit(1, 0, &|| Some((at(3), at(9))), 4, 100), Some(at(9).record(3)));
    let unasked = || -> Option<(Crossing, Crossing)> { panic!("a negative discriminant leaves no roots to ask for") };
    assert_eq!(sphere.hit(-1, 0, &unasked, 4, 100), None);
    let start_box = AABB::new(Point::new(-2, -2, -2), Point::new(2, 2, 2));
    let end_box = AABB::new(Point::new(-2, 2, -2), Point::new(2, 6, 2));
    assert_eq!(
        MovingSphere::bounding_box(&start_box, &end_box),
        Some(AABB::new(Point::new(-2, -2, -2), Point::new(2, 6, 2)))
    );
}

fn crossing(t: i64, p: Point, along: bool) -> Crossing {
    Crossing {
        t,
        p,
        u: 11,
        v: 12,
        outward_normal: Point::new(0, 0, 1),
        reversed_normal: Point::new(0, 0, -1),
        dot: if along { 1 } else { -1 },
        zero: 0,
    }
}

#[test]
fn record_turns_the_normal_against_the_ray() {
    let front = HitRecord::new(Point::new(1, 2, 3), 5, 6, 7, Point::new(0, 0, 1), Point::new(0, 0, -1), -3, 0, 4);
    assert_eq!(front.face, Face::Front);
    assert_eq!(front.normal, Point::new(0, 0, 1));
    assert_eq!((front.p, front.t, front.u, front.v, front.material), (Point::new(1, 2, 3), 5, 6, 7, 4));
    let back = HitRecord::new(Point::new(1, 2, 3), 5, 6, 7, Point::new(0, 0, 1), Point::new(0, 0, -1), 3, 0, 4);
    assert_eq!(back.face, Face::Back);
    assert_eq!(back.normal, Point::new(0, 0, -1));
    // A ray that runs across the normal counts as striking the front.
    let across = HitRecord::new(Point::new(1, 2, 3), 5, 6, 7, Point::new(0, 0, 1), Point::new(0, 0, -1), 8, 8, 4);
    assert_eq!((across.face, across.normal), (Face::Front, Point::new(0, 0, 1)));
    assert_eq!(crossing(5, Point::new(1, 2, 3), true).record(9).face, Face::Back);
}

#[test]
fn rectangle_accepts_crossings_within_range_and_extent() {
    let r = XyRectangle::new(0, 10, 20, 30, 5, 2);
    let inside = crossing(50, Point::new(4, 25, 5), false);
    let hit = r.hit(&inside, 0, 100).unwrap();
    assert_eq!(hit, inside.record(2));
    assert_eq!(hit.material, 2);
    // The edges of the rectangle and the ends of the range belong to them.
    assert!(r.hit(&crossing(0, Point::new(0, 20, 5), false), 0, 100).is_some());
    assert!(r.hit(&crossing(100, Point::new(10, 30, 5), false), 0, 100).is_some());
    assert!(r.hit(&crossing(101, Point::new(4, 25, 5), false), 0, 100).is_none());
    assert!(r.hit(&crossing(-1, Point::new(4, 25, 5), false), 0, 100).is_none());
    assert!(r.hit(&crossing(50, Point::new(11, 25, 5), false), 0, 100).is_none());
    assert!(r.hit(&crossing(50, Point::new(-1, 25, 5), false), 0, 100).is_none());
    assert!(r.hit(&crossing(50, Point::new(4, 31, 5), false), 0, 100).is_none());
    assert!(r.hit(&crossing(50, Point::new(4, 19, 5), false), 0, 100).is_none());
}

#[test]
fn rectangles_of_the_other_planes_test_their_own_coordinates() {
    let xz = XzRectangle::new(0, 10, 20, 30, 5, 1);
    assert!(xz.hit(&crossing(1, Point::new(4, 999, 25), false), 0, 100).is_some());
    assert!(xz.hit(&crossing(1, Point::new(4, 5, 31), false), 0, 100).is_none());
    let yz = YzRectangle::new(0, 10, 20, 30, 5, 1);
    assert!(yz.hit(&crossing(1, Point::new(999, 4, 25), false), 0, 100).is_some());
    assert!(yz.hit(&crossing(1, Point::new(5, 11, 25), false), 0, 100).is_none());
}

#[test]
fn rectangle_boxes_are_padded_across_the_plane() {
    let xy = XyRectangle::new(0, 10, 20, 30, 5, 1);
    assert_eq!(xy.bounding_box(4, 6), Some(AABB::new(Point::new(0, 20, 4), Point::new(10, 30, 6))));
    let xz = XzRectangle::new(0, 10, 20, 30, 5, 1);
    assert_eq!(xz.bounding_box(4, 6), Some(AABB::new(Point::new(0, 4, 20), Point::new(10, 6, 30))));
    let yz = YzRectangle::new(0, 10, 20, 30, 5, 1);
    assert_eq!(yz.bounding_box(4, 6), Some(AABB::new(Point::new(4, 0, 20), Point::new(6, 10, 30))));
}

#[test]
fn cuboid_has_six_sides() {
    let low = Point::new(1, 2, 3);
    let high = Point::new(4, 5, 6);
    let c = Cuboid::new(low, high, 7);
    assert_eq!(
        c.sides(),
        &vec![
            Side::Xy(XyRectangle::new(1, 4, 2, 5, 6, 7)),
            Side::Xy(XyRectangle::new(1, 4, 2, 5, 3, 7)),
            Side::Xz(XzRectangle::new(1, 4, 3, 6, 2, 7)),
            Side::Xz(XzRectangle::new(1, 4, 3, 6, 5, 7)),
            Side::Yz(YzRectangle::new(2, 5, 3, 6, 1, 7)),
            Side::Yz(YzRectangle::new(2, 5, 3, 6, 4, 7)),
        ]
    );
    assert_eq!((c.min(), c.max()), (low, high));
    // The box is that of the six padded sides: it reaches beyond the cuboid on every axis.
    let around_low = Padding { below: Point::new(0, 1, 2), above: Point::new(2, 3, 4) };
    let around_high = Padding { below: Point::new(3, 4, 5), above: Point::new(5, 6, 7) };
    assert!(around_low.surrounds(low) && around_high.surrounds(high));
    assert!(!around_low.surrounds(high) && !around_high.surrounds(low));
    assert_eq!(
        c.bounding_box(&around_low, &around_high),
        Some(AABB::new(Point::new(0, 1, 2), Point::new(5, 6, 7)))
    );
    // A ray that crosses the side at z = 6 at 10 and the side at z = 3 at 20.
    let probe = |i: usize, t_min: i64, limit: i64| match &c.sides()[i] {
        Side::Xy(r) => {
            let t = if r.k == 6 { 10 } else { 20 };
            r.hit(&crossing(t, Point::new(2, 3, r.k), false), t_min, limit)
        }
        _ => None,
    };
    assert_eq!(c.hit(&probe, 0, 100).unwrap().t, 10);
    assert_eq!(c.hit(&probe, 11, 100).unwrap().t, 20);
    assert!(c.hit(&probe, 21, 100).is_none());
}

#[test]
fn cuboid_box_is_the_hull_of_its_padded_sides() {
    let low = Point::new(10, 20, 30);
    let high = Point::new(40, 50, 60);
    let c = Cuboid::new(low, high, 0);
    let around_low = Padding { below: Point::new(9, 18, 27), above: Point::new(11, 22, 33) };
    let around_high = Padding { below: Point::new(36, 45, 54), above: Point::new(44, 55, 66) };
    let whole = c.bounding_box(&around_low, &around_high).unwrap();
    assert_eq!(whole, AABB::new(Point::new(9, 18, 27), Point::new(44, 55, 66)));
    // Each side's own padded box lies within it, and together they make it up.
    let pads = [(54, 66), (27, 33), (18, 22), (45, 55), (9, 11), (36, 44)];
    let mut merged: Option<AABB> = None;
    for (side, (below, above)) in c.sides().iter().zip(pads) {
        let side_box = side.bounding_box(below, above).unwrap();
        assert_eq!(AABB::surrounding_box(&whole, &side_box), whole);
        merged = Some(match merged {
            Some(b) => AABB::surrounding_box(&side_box, &b),
            None => side_box,
        });
    }
    assert_eq!(merged, Some(whole));
}

#[test]
fn cuboid_box_with_uneven_padding() {
    // The padding above the low corner reaches beyond that above the high corner on x.
    let c = Cuboid::new(Point::new(0, 0, 0), Point::new(10, 10, 10), 0);
    let around_low = Padding { below: Point::new(-1, -1, -1), above: Point::new(50, 1, 1) };
    let around_high = Padding { below: Point::new(9, 9, 9), above: Point::new(11, 11, 11) };
    assert_eq!(
        c.bounding_box(&around_low, &around_high),
        Some(AABB::new(Point::new(-1, -1, -1), Point::new(50, 11, 11)))
    );
}

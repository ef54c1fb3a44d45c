//! Axis-aligned bounding boxes and the slab test.

use crate::math::{Axis, Point};
use vstd::prelude::*;

verus! {

/// An axis-aligned box, by its two extreme corners.
#[derive(Debug, Clone, Copy, PartialEq, Eq, Structural)]
pub struct AABB {
    minimum: Point,
    maximum: Point,
}

impl AABB {
    /// The corner with the smallest coordinates.
    pub closed spec fn spec_minimum(&self) -> Point {
        self.minimum
    }

    /// The corner with the largest coordinates.
    pub closed spec fn spec_maximum(&self) -> Point {
        self.maximum
    }

    /// A box is well formed when its minimum does not exceed its maximum on
    /// any axis. A box of zero thickness is well formed.
    pub open spec fn wf(self) -> bool {
        self.spec_minimum().le(self.spec_maximum())
    }

    /// Whether `inner` lies within `self`.
    pub open spec fn contains(self, inner: AABB) -> bool {
        self.spec_minimum().le(inner.spec_minimum()) && inner.spec_maximum().le(
            self.spec_maximum(),
        )
    }

    /// The box spanned by two corners.
    pub closed spec fn from_corners(minimum: Point, maximum: Point) -> AABB {
        AABB { minimum, maximum }
    }

    /// The smallest box that holds both `self` and `other`.
    pub open spec fn merge(self, other: AABB) -> AABB {
        AABB::from_corners(
            self.spec_minimum().spec_lower(other.spec_minimum()),
            self.spec_maximum().spec_upper(other.spec_maximum()),
        )
    }

    /// A box is fixed by its two corners.
    pub broadcast proof fn lemma_corners(minimum: Point, maximum: Point)
        ensures
            (#[trigger] AABB::from_corners(minimum, maximum)).spec_minimum() == minimum,
            AABB::from_corners(minimum, maximum).spec_maximum() == maximum,
    {
    }

    /// Two boxes with the same corners are the same box.
    pub proof fn lemma_ext(self, other: AABB)
        requires
            self.spec_minimum() == other.spec_minimum(),
            self.spec_maximum() == other.spec_maximum(),
        ensures
            self == other,
    {
    }

    pub fn new(minimum: Point, maximum: Point) -> (r: Self)
        ensures
            r == AABB::from_corners(minimum, maximum),
            r.spec_minimum() == minimum,
            r.spec_maximum() == maximum,
    {
        Self { minimum, maximum }
    }

    /// The smallest box that holds both arguments: on each axis the smaller of
    /// the two minimums and the larger of the two maximums.
    pub fn surrounding_box(box0: &AABB, box1: &AABB) -> (r: Self)
        ensures
            r == box0.merge(*box1),
            r.contains(*box0),
            r.contains(*box1),
            forall|c: AABB| c.contains(*box0) && c.contains(*box1) ==> c.contains(r),
            box0.wf() || box1.wf() ==> r.wf(),
    {
        let small: Point = box0.minimum.lower(box1.minimum);
        let big: Point = box0.maximum.upper(box1.maximum);
        AABB::new(small, big)
    }

    #[verifier::when_used_as_spec(spec_minimum)]
    pub fn minimum(&self) -> (r: Point)
        ensures
            r == self.spec_minimum(),
    {
        self.minimum
    }

    #[verifier::when_used_as_spec(spec_maximum)]
    pub fn maximum(&self) -> (r: Point)
        ensures
            r == self.spec_maximum(),
    {
        self.maximum
    }
}

impl AABB {
    /// Whether the point `p` lies in the box, its faces included.
    pub open spec fn holds(self, p: Point) -> bool {
        self.spec_minimum().le(p) && p.le(self.spec_maximum())
    }

    /// Corner number `n` of the box, for `n` below 8: the corner takes its
    /// x from the maximum if `n / 4` is 1, its y from the maximum if
    /// `(n / 2) % 2` is 1 and its z from the maximum if `n % 2` is 1, and
    /// from the minimum otherwise.
    pub open spec fn spec_corner(self, n: int) -> Point {
        Point {
            x: if n / 4 == 1 { self.spec_maximum().x } else { self.spec_minimum().x },
            y: if (n / 2) % 2 == 1 { self.spec_maximum().y } else { self.spec_minimum().y },
            z: if n % 2 == 1 { self.spec_maximum().z } else { self.spec_minimum().z },
        }
    }

    /// The eight corners of the box, in the order of their numbers.
    pub fn corners(&self) -> (r: Vec<Point>)
        ensures
            r@.len() == 8,
            forall|n: int| 0 <= n < 8 ==> r@[n] == self.spec_corner(n),
    {
        let mut r: Vec<Point> = Vec::new();
        let mut n: u8 = 0;
        while n < 8
            invariant
                n <= 8,
                r@.len() == n,
                forall|m: int| 0 <= m < n ==> r@[m] == self.spec_corner(m),
            decreases 8 - n,
        {
            let x: i64 = if n / 4 == 1 { self.maximum.x } else { self.minimum.x };
            let y: i64 = if (n / 2) % 2 == 1 { self.maximum.y } else { self.minimum.y };
            let z: i64 = if n % 2 == 1 { self.maximum.z } else { self.minimum.z };
            r.push(Point::new(x, y, z));
            n = n + 1;
        }
        r
    }

    /// `self` is the least box that holds every point of `points`: it holds
    /// them all, and each of its six faces passes through one of them.
    pub open spec fn encloses(self, points: Seq<Point>) -> bool {
        &&& forall|i: int| 0 <= i < points.len() ==> self.holds(#[trigger] points[i])
        &&& exists|i: int| 0 <= i < points.len() && (#[trigger] points[i]).x == self.spec_minimum().x
        &&& exists|i: int| 0 <= i < points.len() && (#[trigger] points[i]).y == self.spec_minimum().y
        &&& exists|i: int| 0 <= i < points.len() && (#[trigger] points[i]).z == self.spec_minimum().z
        &&& exists|i: int| 0 <= i < points.len() && (#[trigger] points[i]).x == self.spec_maximum().x
        &&& exists|i: int| 0 <= i < points.len() && (#[trigger] points[i]).y == self.spec_maximum().y
        &&& exists|i: int| 0 <= i < points.len() && (#[trigger] points[i]).z == self.spec_maximum().z
    }

    /// The least box that holds every point of `points`; none if there is no
    /// point.
    pub fn enclosing(points: &Vec<Point>) -> (r: Option<Self>)
        ensures
            r is Some <==> points@.len() > 0,
            r matches Some(b) ==> b.encloses(points@) && b.wf(),
    {
        if points.len() == 0 {
            return None;
        }
        let mut low: Point = points[0];
        let mut high: Point = points[0];
        let mut n: usize = 1;
        proof {
            assert(points@.take(1)[0] == points@[0]);
        }
        while n < points.len()
            invariant
                1 <= n <= points.len(),
                AABB::from_corners(low, high).encloses(points@.take(n as int)),
                low.le(high),
            decreases points.len() - n,
        {
            let p: Point = points[n];
            proof {
                let before = AABB::from_corners(low, high);
                let after = AABB::from_corners(low.spec_lower(p), high.spec_upper(p));
                let old_points = points@.take(n as int);
                let new_points = points@.take(n + 1);
                assert(new_points[n as int] == p);
                assert forall|i: int| 0 <= i < new_points.len() implies after.holds(
                    #[trigger] new_points[i],
                ) by {
                    if i < n {
                        assert(before.holds(old_points[i]));
                    }
                }
                let ax = choose|i: int| 0 <= i < old_points.len() && (#[trigger] old_points[i]).x == before.spec_minimum().x;
                assert(new_points[ax] == old_points[ax]);
                let ay = choose|i: int| 0 <= i < old_points.len() && (#[trigger] old_points[i]).y == before.spec_minimum().y;
                assert(new_points[ay] == old_points[ay]);
                let az = choose|i: int| 0 <= i < old_points.len() && (#[trigger] old_points[i]).z == before.spec_minimum().z;
                assert(new_points[az] == old_points[az]);
                let bx = choose|i: int| 0 <= i < old_points.len() && (#[trigger] old_points[i]).x == before.spec_maximum().x;
                assert(new_points[bx] == old_points[bx]);
                let by = choose|i: int| 0 <= i < old_points.len() && (#[trigger] old_points[i]).y == before.spec_maximum().y;
                assert(new_points[by] == old_points[by]);
                let bz = choose|i: int| 0 <= i < old_points.len() && (#[trigger] old_points[i]).z == before.spec_maximum().z;
                assert(new_points[bz] == old_points[bz]);
            }
            low = low.lower(p);
            high = high.upper(p);
            n = n + 1;
        }
        proof {
            assert(points@.take(n as int) =~= points@);
        }
        Some(AABB::new(low, high))
    }
}

/// The merge of two boxes holds both of them.
pub proof fn lemma_merge_contains(a: AABB, b: AABB)
    ensures
        a.merge(b).contains(a),
        a.merge(b).contains(b),
{
    AABB::lemma_corners(
        a.spec_minimum().spec_lower(b.spec_minimum()),
        a.spec_maximum().spec_upper(b.spec_maximum()),
    );
}

/// The merge of two boxes is the least box that holds both: every box that
/// holds both holds their merge.
pub proof fn lemma_merge_minimal(a: AABB, b: AABB, c: AABB)
    requires
        c.contains(a),
        c.contains(b),
    ensures
        c.contains(a.merge(b)),
{
    AABB::lemma_corners(
        a.spec_minimum().spec_lower(b.spec_minimum()),
        a.spec_maximum().spec_upper(b.spec_maximum()),
    );
}

/// Merging does not depend on the order of the two boxes.
pub proof fn lemma_merge_commutative(a: AABB, b: AABB)
    ensures
        a.merge(b) == b.merge(a),
{
    broadcast use AABB::lemma_corners;

    a.merge(b).lemma_ext(b.merge(a));
}

/// Merging three boxes does not depend on how they are grouped.
pub proof fn lemma_merge_associative(a: AABB, b: AABB, c: AABB)
    ensures
        a.merge(b).merge(c) == a.merge(b.merge(c)),
{
    broadcast use AABB::lemma_corners;

    a.merge(b).merge(c).lemma_ext(a.merge(b.merge(c)));
}

/// A box merged with itself is that box.
pub proof fn lemma_merge_idempotent(a: AABB)
    ensures
        a.merge(a) == a,
{
    broadcast use AABB::lemma_corners;

    a.merge(a).lemma_ext(a);
}

/// What a ray needs to know of a box to be tested against it: on each axis,
/// the two parameters at which the ray meets the planes that bound the box on
/// that axis, in either order. A ray that runs along an axis meets its planes
/// at the two ends of the rank order.
#[derive(Debug, Clone, Copy)]
pub struct RaySlabs {
    pub x: (i64, i64),
    pub y: (i64, i64),
    pub z: (i64, i64),
}

/// The smaller of two ranks.
pub open spec fn spec_min(a: i64, b: i64) -> i64 {
    if a <= b {
        a
    } else {
        b
    }
}

/// The larger of two ranks.
pub open spec fn spec_max(a: i64, b: i64) -> i64 {
    if a >= b {
        a
    } else {
        b
    }
}

/// The smaller of two ranks.
#[verifier::when_used_as_spec(spec_min)]
pub fn min(a: i64, b: i64) -> (r: i64)
    ensures
        r == spec_min(a, b),
{
    if a <= b {
        a
    } else {
        b
    }
}

/// The larger of two ranks.
#[verifier::when_used_as_spec(spec_max)]
pub fn max(a: i64, b: i64) -> (r: i64)
    ensures
        r == spec_max(a, b),
{
    if a >= b {
        a
    } else {
        b
    }
}

impl RaySlabs {
    /// The two crossings on `axis`.
    pub open spec fn spec_pair(self, axis: Axis) -> (i64, i64) {
        match axis {
            Axis::X => self.x,
            Axis::Y => self.y,
            Axis::Z => self.z,
        }
    }

    /// Where the ray enters the slab of `axis`.
    pub open spec fn entry(self, axis: Axis) -> i64 {
        spec_min(self.spec_pair(axis).0, self.spec_pair(axis).1)
    }

    /// Where the ray leaves the slab of `axis`.
    pub open spec fn exit(self, axis: Axis) -> i64 {
        spec_max(self.spec_pair(axis).0, self.spec_pair(axis).1)
    }

    /// The last of `t_min` and the three entries.
    pub open spec fn near(self, t_min: i64) -> i64 {
        spec_max(
            self.entry(Axis::Z),
            spec_max(self.entry(Axis::Y), spec_max(self.entry(Axis::X), t_min)),
        )
    }

    /// The first of `t_max` and the three exits.
    pub open spec fn far(self, t_max: i64) -> i64 {
        spec_min(
            self.exit(Axis::Z),
            spec_min(self.exit(Axis::Y), spec_min(self.exit(Axis::X), t_max)),
        )
    }

    /// The ray is inside all three slabs at once somewhere strictly between
    /// `t_min` and `t_max`: the last entry comes before the first exit.
    pub open spec fn spec_hit(self, t_min: i64, t_max: i64) -> bool {
        self.near(t_min) < self.far(t_max)
    }

    /// The two crossings on `axis`.
    #[verifier::when_used_as_spec(spec_pair)]
    pub fn pair(self, axis: Axis) -> (r: (i64, i64))
        ensures
            r == self.spec_pair(axis),
    {
        match axis {
            Axis::X => self.x,
            Axis::Y => self.y,
            Axis::Z => self.z,
        }
    }

    /// The slab test. Axis by axis the interval `[t_min, t_max]` is narrowed
    /// to the part in which the ray is inside that axis's slab; the test fails
    /// as soon as nothing is left, and succeeds if something is left after the
    /// third axis.
    pub fn hit(&self, t_min: i64, t_max: i64) -> (r: bool)
        ensures
            r == self.spec_hit(t_min, t_max),
    {
        let axes: [Axis; 3] = [Axis::X, Axis::Y, Axis::Z];
        let mut lo: i64 = t_min;
        let mut hi: i64 = t_max;
        let mut a: usize = 0;
        while a < 3
            invariant
                a <= 3,
                axes[0] == Axis::X,
                axes[1] == Axis::Y,
                axes[2] == Axis::Z,
                a == 0 ==> lo == t_min && hi == t_max,
                a == 1 ==> lo == spec_max(self.entry(Axis::X), t_min) && hi == spec_min(
                    self.exit(Axis::X),
                    t_max,
                ),
                a == 2 ==> lo == spec_max(
                    self.entry(Axis::Y),
                    spec_max(self.entry(Axis::X), t_min),
                ) && hi == spec_min(self.exit(Axis::Y), spec_min(self.exit(Axis::X), t_max)),
                a == 3 ==> lo == self.near(t_min) && hi == self.far(t_max),
                a > 0 ==> lo < hi,
            decreases 3 - a,
        {
            let p: (i64, i64) = self.pair(axes[a]);
            let t0: i64 = min(p.0, p.1);
            let t1: i64 = max(p.0, p.1);
            lo = max(t0, lo);
            hi = min(t1, hi);
            if hi <= lo {
                return false;
            }
            a = a + 1;
        }
        true
    }
}

/// A ray that is strictly inside all three slabs at the parameter `t` passes
/// the slab test for every range that reaches `t` and goes beyond it on one
/// side at least.
pub proof fn lemma_interior_point_hits(slabs: RaySlabs, t: i64, t_min: i64, t_max: i64)
    requires
        slabs.entry(Axis::X) < t < slabs.exit(Axis::X),
        slabs.entry(Axis::Y) < t < slabs.exit(Axis::Y),
        slabs.entry(Axis::Z) < t < slabs.exit(Axis::Z),
        t_min <= t <= t_max,
        t_min < t_max,
    ensures
        slabs.spec_hit(t_min, t_max),
{
}

/// A ray that leaves the slab of one axis before it enters that of another
/// fails the slab test for every range.
pub proof fn lemma_apart_slabs_miss(slabs: RaySlabs, a: Axis, b: Axis, t_min: i64, t_max: i64)
    requires
        slabs.exit(a) <= slabs.entry(b),
    ensures
        !slabs.spec_hit(t_min, t_max),
{
}

} // verus!

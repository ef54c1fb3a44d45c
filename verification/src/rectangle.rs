//! Axis-aligned rectangles, and the box made of six of them.

use crate::aabb::AABB;
use crate::hittable::{aggregate_box, all_items, lemma_aggregate_box, scan, scanned, HittableList};
use crate::hull::{bounded_at, is_hull, lemma_hull_unique};
use crate::math::{spec_within, within, Point};
use crate::record::{Crossing, HitRecord};
use vstd::prelude::*;

verus! {

/// A rectangle in a plane of constant z: it spans `x0 ..= x1` and
/// `y0 ..= y1` at `z = k`.
#[derive(Debug, Clone, Copy, PartialEq, Eq, Structural)]
pub struct XyRectangle {
    pub material: usize,
    pub x0: i64,
    pub x1: i64,
    pub y0: i64,
    pub y1: i64,
    pub k: i64,
}

impl XyRectangle {
    /// Whether a crossing of the rectangle's plane counts as a hit between
    /// `t_min` and `t_max`: its parameter lies in that range and its point
    /// within the rectangle's extent.
    pub open spec fn accepts(self, at: Crossing, t_min: i64, t_max: i64) -> bool {
        &&& spec_within(at.t, t_min, t_max)
        &&& spec_within(at.p.x, self.x0, self.x1)
        &&& spec_within(at.p.y, self.y0, self.y1)
    }

    pub fn new(x0: i64, x1: i64, y0: i64, y1: i64, k: i64, material: usize) -> (r: Self)
        ensures
            r == (XyRectangle { material, x0, x1, y0, y1, k }),
    {
        Self { material, x0, x1, y0, y1, k }
    }

    /// The hit, if there is one, of a ray that crosses the rectangle's plane
    /// at `at`.
    pub fn hit(&self, at: &Crossing, t_min: i64, t_max: i64) -> (r: Option<HitRecord>)
        ensures
            r is Some <==> self.accepts(*at, t_min, t_max),
            r matches Some(h) ==> h == at.spec_record(self.material),
    {
        if !within(at.t, t_min, t_max) {
            return None;
        }
        if !within(at.p.x, self.x0, self.x1) || !within(at.p.y, self.y0, self.y1) {
            return None;
        }
        Some(at.record(self.material))
    }

    /// The box of the rectangle: its extent in its plane, and from `below`
    /// to `above` across it.
    pub open spec fn spec_bounding_box(self, below: i64, above: i64) -> Option<AABB> {
        Some(
            AABB::from_corners(
                Point { x: self.x0, y: self.y0, z: below },
                Point { x: self.x1, y: self.y1, z: above },
            ),
        )
    }

    /// The bounding box: the rectangle's extent in its plane, and from
    /// `below` to `above` across it, where the caller gives the two ranks
    /// that pad `k`, one on either side of it, so that the box has some
    /// thickness.
    pub fn bounding_box(&self, below: i64, above: i64) -> (r: Option<AABB>)
        requires
            below < self.k < above,
        ensures
            r == self.spec_bounding_box(below, above),
    {
        Some(
            AABB::new(
                Point::new( self.x0, self.y0, below),
                Point::new( self.x1, self.y1, above),
            ),
        )
    }
}

/// A rectangle in a plane of constant y: it spans `x0 ..= x1` and
/// `z0 ..= z1` at `y = k`.
#[derive(Debug, Clone, Copy, PartialEq, Eq, Structural)]
pub struct XzRectangle {
    pub material: usize,
    pub x0: i64,
    pub x1: i64,
    pub z0: i64,
    pub z1: i64,
    pub k: i64,
}

impl XzRectangle {
    /// Whether a crossing of the rectangle's plane counts as a hit between
    /// `t_min` and `t_max`: its parameter lies in that range and its point
    /// within the rectangle's extent.
    pub open spec fn accepts(self, at: Crossing, t_min: i64, t_max: i64) -> bool {
        &&& spec_within(at.t, t_min, t_max)
        &&& spec_within(at.p.x, self.x0, self.x1)
        &&& spec_within(at.p.z, self.z0, self.z1)
    }

    pub fn new(x0: i64, x1: i64, z0: i64, z1: i64, k: i64, material: usize) -> (r: Self)
        ensures
            r == (XzRectangle { material, x0, x1, z0, z1, k }),
    {
        Self { material, x0, x1, z0, z1, k }
    }

    /// The hit, if there is one, of a ray that crosses the rectangle's plane
    /// at `at`.
    pub fn hit(&self, at: &Crossing, t_min: i64, t_max: i64) -> (r: Option<HitRecord>)
        ensures
            r is Some <==> self.accepts(*at, t_min, t_max),
            r matches Some(h) ==> h == at.spec_record(self.material),
    {
        if !within(at.t, t_min, t_max) {
            return None;
        }
        if !within(at.p.x, self.x0, self.x1) || !within(at.p.z, self.z0, self.z1) {
            return None;
        }
        Some(at.record(self.material))
    }

    /// The box of the rectangle: its extent in its plane, and from `below`
    /// to `above` across it.
    pub open spec fn spec_bounding_box(self, below: i64, above: i64) -> Option<AABB> {
        Some(
            AABB::from_corners(
                Point { x: self.x0, y: below, z: self.z0 },
                Point { x: self.x1, y: above, z: self.z1 },
            ),
        )
    }

    /// The bounding box: the rectangle's extent in its plane, and from
    /// `below` to `above` across it, where the caller gives the two ranks
    /// that pad `k`, one on either side of it, so that the box has some
    /// thickness.
    pub fn bounding_box(&self, below: i64, above: i64) -> (r: Option<AABB>)
        requires
            below < self.k < above,
        ensures
            r == self.spec_bounding_box(below, above),
    {
        Some(
            AABB::new(
                Point::new( self.x0, below, self.z0),
                Point::new( self.x1, above, self.z1),
            ),
        )
    }
}

/// A rectangle in a plane of constant x: it spans `y0 ..= y1` and
/// `z0 ..= z1` at `x = k`.
#[derive(Debug, Clone, Copy, PartialEq, Eq, Structural)]
pub struct YzRectangle {
    pub material: usize,
    pub y0: i64,
    pub y1: i64,
    pub z0: i64,
    pub z1: i64,
    pub k: i64,
}

impl YzRectangle {
    /// Whether a crossing of the rectangle's plane counts as a hit between
    /// `t_min` and `t_max`: its parameter lies in that range and its point
    /// within the rectangle's extent.
    pub open spec fn accepts(self, at: Crossing, t_min: i64, t_max: i64) -> bool {
        &&& spec_within(at.t, t_min, t_max)
        &&& spec_within(at.p.y, self.y0, self.y1)
        &&& spec_within(at.p.z, self.z0, self.z1)
    }

    pub fn new(y0: i64, y1: i64, z0: i64, z1: i64, k: i64, material: usize) -> (r: Self)
        ensures
            r == (YzRectangle { material, y0, y1, z0, z1, k }),
    {
        Self { material, y0, y1, z0, z1, k }
    }

    /// The hit, if there is one, of a ray that crosses the rectangle's plane
    /// at `at`.
    pub fn hit(&self, at: &Crossing, t_min: i64, t_max: i64) -> (r: Option<HitRecord>)
        ensures
            r is Some <==> self.accepts(*at, t_min, t_max),
            r matches Some(h) ==> h == at.spec_record(self.material),
    {
        if !within(at.t, t_min, t_max) {
            return None;
        }
        if !within(at.p.y, self.y0, self.y1) || !within(at.p.z, self.z0, self.z1) {
            return None;
        }
        Some(at.record(self.material))
    }

    /// The box of the rectangle: its extent in its plane, and from `below`
    /// to `above` across it.
    pub open spec fn spec_bounding_box(self, below: i64, above: i64) -> Option<AABB> {
        Some(
            AABB::from_corners(
                Point { x: below, y: self.y0, z: self.z0 },
                Point { x: above, y: self.y1, z: self.z1 },
            ),
        )
    }

    /// The bounding box: the rectangle's extent in its plane, and from
    /// `below` to `above` across it, where the caller gives the two ranks
    /// that pad `k`, one on either side of it, so that the box has some
    /// thickness.
    pub fn bounding_box(&self, below: i64, above: i64) -> (r: Option<AABB>)
        requires
            below < self.k < above,
        ensures
            r == self.spec_bounding_box(below, above),
    {
        Some(
            AABB::new(
                Point::new( below, self.y0, self.z0),
                Point::new( above, self.y1, self.z1),
            ),
        )
    }
}

/// One side of a cuboid.
#[derive(Debug, Clone, Copy, PartialEq, Eq, Structural)]
pub enum Side {
    Xy(XyRectangle),
    Xz(XzRectangle),
    Yz(YzRectangle),
}

/// The six sides of the box between the corners `low` and `high`: the two in
/// planes of constant z, those of constant y, those of constant x.
pub open spec fn spec_sides(low: Point, high: Point, material: usize) -> Seq<Side> {
    seq![
        Side::Xy(XyRectangle { material, x0: low.x, x1: high.x, y0: low.y, y1: high.y, k: high.z }),
        Side::Xy(XyRectangle { material, x0: low.x, x1: high.x, y0: low.y, y1: high.y, k: low.z }),
        Side::Xz(XzRectangle { material, x0: low.x, x1: high.x, z0: low.z, z1: high.z, k: low.y }),
        Side::Xz(XzRectangle { material, x0: low.x, x1: high.x, z0: low.z, z1: high.z, k: high.y }),
        Side::Yz(YzRectangle { material, y0: low.y, y1: high.y, z0: low.z, z1: high.z, k: low.x }),
        Side::Yz(YzRectangle { material, y0: low.y, y1: high.y, z0: low.z, z1: high.z, k: high.x }),
    ]
}

impl Side {
    /// Where the plane of the side lies on the axis across it.
    pub open spec fn spec_k(self) -> i64 {
        match self {
            Side::Xy(r) => r.k,
            Side::Xz(r) => r.k,
            Side::Yz(r) => r.k,
        }
    }

    /// The box of the side, from `below` to `above` across its plane.
    pub open spec fn spec_bounding_box(self, below: i64, above: i64) -> Option<AABB> {
        match self {
            Side::Xy(r) => r.spec_bounding_box(below, above),
            Side::Xz(r) => r.spec_bounding_box(below, above),
            Side::Yz(r) => r.spec_bounding_box(below, above),
        }
    }

    /// The bounding box of the side, padded across its plane from `below`
    /// to `above`.
    pub fn bounding_box(&self, below: i64, above: i64) -> (r: Option<AABB>)
        requires
            below < self.spec_k() < above,
        ensures
            r == self.spec_bounding_box(below, above),
    {
        match self {
            Side::Xy(r) => r.bounding_box(below, above),
            Side::Xz(r) => r.bounding_box(below, above),
            Side::Yz(r) => r.bounding_box(below, above),
        }
    }
}

/// The ranks that pad a corner: on each axis one below the corner's
/// coordinate and one above it.
#[derive(Debug, Clone, Copy, PartialEq, Eq, Structural)]
pub struct Padding {
    pub below: Point,
    pub above: Point,
}

impl Padding {
    /// Whether the corner `p` lies strictly between the two ranks on each
    /// axis.
    pub open spec fn pads(self, p: Point) -> bool {
        &&& self.below.x < p.x < self.above.x
        &&& self.below.y < p.y < self.above.y
        &&& self.below.z < p.z < self.above.z
    }

    /// Whether the corner `p` lies strictly between the two ranks on each
    /// axis.
    pub fn surrounds(&self, p: Point) -> (r: bool)
        ensures
            r == self.pads(p),
    {
        self.below.x < p.x && p.x < self.above.x && self.below.y < p.y && p.y < self.above.y
            && self.below.z < p.z && p.z < self.above.z
    }
}

/// The two ranks that pad side `i` of a cuboid across its plane: those of
/// the corner that the side passes through, on the axis across the side.
pub open spec fn spec_side_padding(i: int, around_low: Padding, around_high: Padding) -> (i64, i64) {
    if i == 0 {
        (around_high.below.z, around_high.above.z)
    } else if i == 1 {
        (around_low.below.z, around_low.above.z)
    } else if i == 2 {
        (around_low.below.y, around_low.above.y)
    } else if i == 3 {
        (around_high.below.y, around_high.above.y)
    } else if i == 4 {
        (around_low.below.x, around_low.above.x)
    } else {
        (around_high.below.x, around_high.above.x)
    }
}

/// The padded boxes of the six sides of the box between `low` and `high`.
pub open spec fn spec_side_boxes(
    low: Point,
    high: Point,
    material: usize,
    around_low: Padding,
    around_high: Padding,
) -> Seq<Option<AABB>> {
    Seq::new(
        6,
        |i: int|
            spec_sides(low, high, material)[i].spec_bounding_box(
                spec_side_padding(i, around_low, around_high).0,
                spec_side_padding(i, around_low, around_high).1,
            ),
    )
}

/// Where the padding of the high corner lies nowhere below that of the low
/// corner, the hull of the six padded sides reaches from the padding below
/// the low corner to the padding above the high corner.
pub proof fn lemma_side_boxes_hull(
    low: Point,
    high: Point,
    material: usize,
    around_low: Padding,
    around_high: Padding,
)
    requires
        around_low.pads(low),
        around_high.pads(high),
        around_low.below.le(around_high.below),
        around_low.above.le(around_high.above),
    ensures
        aggregate_box(spec_side_boxes(low, high, material, around_low, around_high)) == Some(
            AABB::from_corners(around_low.below, around_high.above),
        ),
{
    broadcast use AABB::lemma_corners;

    let boxes = spec_side_boxes(low, high, material, around_low, around_high);
    let outer = AABB::from_corners(around_low.below, around_high.above);
    let all = all_items(6);
    lemma_aggregate_box(boxes);
    assert forall|i: int| 0 <= i < 6 implies bounded_at(boxes, i) by {
        assert(boxes[i] is Some);
    }
    assert forall|i: int| #[trigger] all.contains(i) implies bounded_at(boxes, i) && outer.contains(
        boxes[i].unwrap(),
    ) by {
        assert(0 <= i < 6);
    }
    assert(all.contains(0) && all.contains(1) && all.contains(2) && all.contains(3)
        && all.contains(4) && all.contains(5));
    assert(boxes[4].unwrap().spec_minimum().x == outer.spec_minimum().x);
    assert(boxes[2].unwrap().spec_minimum().y == outer.spec_minimum().y);
    assert(boxes[1].unwrap().spec_minimum().z == outer.spec_minimum().z);
    assert(boxes[5].unwrap().spec_maximum().x == outer.spec_maximum().x);
    assert(boxes[3].unwrap().spec_maximum().y == outer.spec_maximum().y);
    assert(boxes[0].unwrap().spec_maximum().z == outer.spec_maximum().z);
    assert(is_hull(outer, boxes, all));
    lemma_hull_unique(outer, aggregate_box(boxes).unwrap(), boxes, all);
}

/// An axis-aligned box made of six rectangles.
pub struct Cuboid {
    min: Point,
    max: Point,
    material: usize,
    sides: Vec<Side>,
}

impl Cuboid {
    pub closed spec fn spec_min(&self) -> Point {
        self.min
    }

    pub closed spec fn spec_max(&self) -> Point {
        self.max
    }

    pub closed spec fn spec_material(&self) -> usize {
        self.material
    }

    pub closed spec fn spec_all_sides(&self) -> Seq<Side> {
        self.sides@
    }

    /// The sides are the six rectangles between the two corners. This holds
    /// of every cuboid.
    #[verifier::type_invariant]
    pub open spec fn wf(&self) -> bool {
        self.spec_all_sides() == spec_sides(self.spec_min(), self.spec_max(), self.spec_material())
    }

    /// The box between the corners `low` and `high`, all of one material.
    pub fn new(low: Point, high: Point, material: usize) -> (r: Self)
        ensures
            r.spec_min() == low,
            r.spec_max() == high,
            r.spec_material() == material,
            r.spec_all_sides() == spec_sides(low, high, material),
    {
        let mut sides: Vec<Side> = Vec::new();
        sides.push(Side::Xy(XyRectangle::new(low.x, high.x, low.y, high.y, high.z, material)));
        sides.push(Side::Xy(XyRectangle::new(low.x, high.x, low.y, high.y, low.z, material)));
        sides.push(Side::Xz(XzRectangle::new(low.x, high.x, low.z, high.z, low.y, material)));
        sides.push(Side::Xz(XzRectangle::new(low.x, high.x, low.z, high.z, high.y, material)));
        sides.push(Side::Yz(YzRectangle::new(low.y, high.y, low.z, high.z, low.x, material)));
        sides.push(Side::Yz(YzRectangle::new(low.y, high.y, low.z, high.z, high.x, material)));
        proof {
            assert(sides@ =~= spec_sides(low, high, material));
        }
        Self { min: low, max: high, material, sides }
    }

    /// The corner with the smallest coordinates.
    pub fn min(&self) -> (r: Point)
        ensures
            r == self.spec_min(),
    {
        self.min
    }

    /// The corner with the largest coordinates.
    pub fn max(&self) -> (r: Point)
        ensures
            r == self.spec_max(),
    {
        self.max
    }

    /// The six sides, in the order in which `hit` probes them.
    pub fn sides(&self) -> (r: &Vec<Side>)
        ensures
            r@ == self.spec_all_sides(),
    {
        &self.sides
    }

    /// The nearest hit of a ray with the six sides between `t_min` and
    /// `t_max`, where `probe(i, t_min, limit)` intersects the ray with side
    /// `i` up to `limit`.
    pub fn hit<F: Fn(usize, i64, i64) -> Option<HitRecord>>(
        &self,
        probe: &F,
        t_min: i64,
        t_max: i64,
    ) -> (r: Option<HitRecord>)
        requires
            forall|i: usize, a: i64, b: i64|
                i < self.spec_all_sides().len() ==> #[trigger] probe.requires((i, a, b)),
        ensures
            scanned(*probe, self.spec_all_sides().len(), t_min, t_max, r),
    {
        scan(self.sides.len(), probe, t_min, t_max)
    }

    /// The bounding box: that of the six sides taken together, each padded
    /// across its plane. `around_low` pads the low corner and `around_high`
    /// the high one, so that the box reaches beyond the cuboid on every axis.
    pub fn bounding_box(&self, around_low: &Padding, around_high: &Padding) -> (r: Option<AABB>)
        requires
            around_low.pads(self.spec_min()),
            around_high.pads(self.spec_max()),
        ensures
            r == aggregate_box(
                spec_side_boxes(
                    self.spec_min(),
                    self.spec_max(),
                    self.spec_material(),
                    *around_low,
                    *around_high,
                ),
            ),
            r is Some,
            around_low.below.le(around_high.below) && around_low.above.le(around_high.above)
                ==> r == Some(AABB::from_corners(around_low.below, around_high.above)),
    {
        proof {
            use_type_invariant(self);
        }
        let ghost boxes = spec_side_boxes(
            self.spec_min(),
            self.spec_max(),
            self.spec_material(),
            *around_low,
            *around_high,
        );
        let mut list: HittableList = HittableList::new();
        let mut i: usize = 0;
        while i < 6
            invariant
                i <= 6,
                self.wf(),
                self.sides@ == self.spec_all_sides(),
                around_low.pads(self.spec_min()),
                around_high.pads(self.spec_max()),
                boxes == spec_side_boxes(
                    self.spec_min(),
                    self.spec_max(),
                    self.spec_material(),
                    *around_low,
                    *around_high,
                ),
                list@ == boxes.take(i as int),
            decreases 6 - i,
        {
            let pad: (i64, i64) = side_padding(i, around_low, around_high);
            let side_box: Option<AABB> = self.sides[i].bounding_box(pad.0, pad.1);
            list.add(side_box);
            proof {
                assert(list@ =~= boxes.take(i + 1));
            }
            i = i + 1;
        }
        proof {
            assert(boxes.take(6) =~= boxes);
            lemma_aggregate_box(boxes);
            assert forall|k: int| 0 <= k < 6 implies bounded_at(boxes, k) by {
                assert(boxes[k] is Some);
            }
            if around_low.below.le(around_high.below) && around_low.above.le(around_high.above) {
                lemma_side_boxes_hull(
                    self.spec_min(),
                    self.spec_max(),
                    self.spec_material(),
                    *around_low,
                    *around_high,
                );
            }
        }
        list.bounding_box()
    }
}

/// The two ranks that pad side `i` of a cuboid across its plane.
fn side_padding(i: usize, around_low: &Padding, around_high: &Padding) -> (r: (i64, i64))
    ensures
        r == spec_side_padding(i as int, *around_low, *around_high),
{
    if i == 0 {
        (around_high.below.z, around_high.above.z)
    } else if i == 1 {
        (around_low.below.z, around_low.above.z)
    } else if i == 2 {
        (around_low.below.y, around_low.above.y)
    } else if i == 3 {
        (around_high.below.y, around_high.above.y)
    } else if i == 4 {
        (around_low.below.x, around_low.above.x)
    } else {
        (around_high.below.x, around_high.above.x)
    }
}

} // verus!

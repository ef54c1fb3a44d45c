//! Spheres, at rest and in motion: which of the two places where a ray
//! meets a sphere is the hit.

use crate::aabb::AABB;
use crate::math::{spec_within, within, Point};
use crate::record::{Crossing, HitRecord};
use vstd::prelude::*;

verus! {

/// The crossing at which a ray hits a sphere between `t_min` and `t_max`.
///
/// `roots` holds the two places where the ray meets the sphere, the nearer
/// first, and is none where the ray misses it. The hit is at the nearer place
/// if its parameter lies in the range, else at the farther if that one's
/// does, and there is no hit if neither does.
pub open spec fn spec_first_in_range(
    roots: Option<(Crossing, Crossing)>,
    t_min: i64,
    t_max: i64,
) -> Option<Crossing> {
    match roots {
        None => None,
        Some((near, far)) => if spec_within(near.t, t_min, t_max) {
            Some(near)
        } else if spec_within(far.t, t_min, t_max) {
            Some(far)
        } else {
            None
        },
    }
}

/// The crossing at which a ray hits a sphere between `t_min` and `t_max`.
#[verifier::when_used_as_spec(spec_first_in_range)]
pub fn first_in_range(roots: Option<(Crossing, Crossing)>, t_min: i64, t_max: i64) -> (r: Option<
    Crossing,
>)
    ensures
        r == spec_first_in_range(roots, t_min, t_max),
{
    match roots {
        None => None,
        Some((near, far)) => {
            if within(near.t, t_min, t_max) {
                Some(near)
            } else if within(far.t, t_min, t_max) {
                Some(far)
            } else {
                None
            }
        },
    }
}

/// A sphere at rest.
#[derive(Debug, Clone, Copy, PartialEq, Eq, Structural)]
pub struct Sphere {
    pub center: Point,
    pub radius: i64,
    pub material: usize,
}

impl Sphere {
    /// The hit of a ray that meets the sphere at `roots`.
    pub open spec fn spec_hit(self, roots: Option<(Crossing, Crossing)>, t_min: i64, t_max: i64) -> Option<
        HitRecord,
    > {
        match spec_first_in_range(roots, t_min, t_max) {
            Some(at) => Some(at.spec_record(self.material)),
            None => None,
        }
    }

    /// `found` is what a search may find of a ray whose equation with the
    /// sphere has the discriminant of rank `discriminant`, where `zero` is
    /// the rank of 0 and `roots` works out the two places where the ray
    /// meets the sphere: nothing below zero, where the roots are not even
    /// asked for, and else the hit that the roots give.
    pub open spec fn searched<F: Fn() -> Option<(Crossing, Crossing)>>(
        self,
        discriminant: i64,
        zero: i64,
        roots: F,
        t_min: i64,
        t_max: i64,
        found: Option<HitRecord>,
    ) -> bool {
        if discriminant < zero {
            found is None
        } else {
            exists|met: Option<(Crossing, Crossing)>| #[trigger]
                roots.ensures((), met) && found == self.spec_hit(met, t_min, t_max)
        }
    }

    pub fn new(center: Point, radius: i64, material: usize) -> (r: Self)
        ensures
            r == (Sphere { center, radius, material }),
    {
        Self { center, radius, material }
    }

    /// The hit between `t_min` and `t_max` of a ray whose equation with the
    /// sphere has the discriminant of rank `discriminant`, where `zero` is
    /// the rank of 0. There is none where the discriminant is negative.
    /// Otherwise `roots()` works out the two places where the ray meets the
    /// sphere, the nearer first, or none where they are no numbers.
    pub fn hit<F: Fn() -> Option<(Crossing, Crossing)>>(
        &self,
        discriminant: i64,
        zero: i64,
        roots: &F,
        t_min: i64,
        t_max: i64,
    ) -> (r: Option<HitRecord>)
        requires
            roots.requires(()),
        ensures
            self.searched(discriminant, zero, *roots, t_min, t_max, r),
            discriminant < zero ==> r is None,
    {
        // A negative discriminant leaves the equation without a real root.
        if discriminant < zero {
            return None;
        }
        let met: Option<(Crossing, Crossing)> = roots();
        match first_in_range(met, t_min, t_max) {
            Some(at) => Some(at.record(self.material)),
            None => None,
        }
    }
}

/// A sphere that moves in a straight line from `start_center` at
/// `start_time` to `end_center` at `end_time`.
#[derive(Debug, Clone, Copy, PartialEq, Eq, Structural)]
pub struct MovingSphere {
    pub start_center: Point,
    pub end_center: Point,
    pub start_time: i64,
    pub end_time: i64,
    pub radius: i64,
    pub material: usize,
}

impl MovingSphere {
    /// The hit of a ray that meets the sphere, where it is when the ray is
    /// cast, at `roots`.
    pub open spec fn spec_hit(self, roots: Option<(Crossing, Crossing)>, t_min: i64, t_max: i64) -> Option<
        HitRecord,
    > {
        match spec_first_in_range(roots, t_min, t_max) {
            Some(at) => Some(at.spec_record(self.material)),
            None => None,
        }
    }

    /// `found` is what a search may find of a ray whose equation with the
    /// sphere has the discriminant of rank `discriminant`, where `zero` is
    /// the rank of 0 and `roots` works out the two places where the ray
    /// meets the sphere: nothing below zero, where the roots are not even
    /// asked for, and else the hit that the roots give.
    pub open spec fn searched<F: Fn() -> Option<(Crossing, Crossing)>>(
        self,
        discriminant: i64,
        zero: i64,
        roots: F,
        t_min: i64,
        t_max: i64,
        found: Option<HitRecord>,
    ) -> bool {
        if discriminant < zero {
            found is None
        } else {
            exists|met: Option<(Crossing, Crossing)>| #[trigger]
                roots.ensures((), met) && found == self.spec_hit(met, t_min, t_max)
        }
    }

    pub fn new(
        start_center: Point,
        end_center: Point,
        start_time: i64,
        end_time: i64,
        radius: i64,
        material: usize,
    ) -> (r: Self)
        ensures
            r == (MovingSphere { start_center, end_center, start_time, end_time, radius, material }),
    {
        Self { start_center, end_center, start_time, end_time, radius, material }
    }

    /// The hit between `t_min` and `t_max` of a ray whose equation with the
    /// sphere, where it is when the ray is cast, has the discriminant of
    /// rank `discriminant`, where `zero` is the rank of 0. There is none
    /// where the discriminant is negative. Otherwise `roots()` works out the
    /// two places where the ray meets the sphere, the nearer first, or none
    /// where they are no numbers.
    pub fn hit<F: Fn() -> Option<(Crossing, Crossing)>>(
        &self,
        discriminant: i64,
        zero: i64,
        roots: &F,
        t_min: i64,
        t_max: i64,
    ) -> (r: Option<HitRecord>)
        requires
            roots.requires(()),
        ensures
            self.searched(discriminant, zero, *roots, t_min, t_max, r),
            discriminant < zero ==> r is None,
    {
        // A negative discriminant leaves the equation without a real root.
        if discriminant < zero {
            return None;
        }
        let met: Option<(Crossing, Crossing)> = roots();
        match first_in_range(met, t_min, t_max) {
            Some(at) => Some(at.record(self.material)),
            None => None,
        }
    }

    /// The bounding box over an exposure: the merge of `start_box`, the box
    /// of the sphere where it is when the exposure starts, and `end_box`,
    /// its box when the exposure ends. The sphere stays within it in between.
    pub fn bounding_box(start_box: &AABB, end_box: &AABB) -> (r: Option<AABB>)
        ensures
            r == Some(start_box.merge(*end_box)),
            r.unwrap().contains(*start_box),
            r.unwrap().contains(*end_box),
    {
        Some(AABB::surrounding_box(start_box, end_box))
    }
}

} // verus!

//! Objects that are moved or turned: the boxes of their new places.

use crate::aabb::AABB;
use crate::math::{Point, Vector};
use crate::record::HitRecord;
use vstd::prelude::*;

verus! {

/// `turned` holds what `turn` may make of each of the eight corners of
/// `bound`, in the order of their numbers.
pub open spec fn turned_corners<F: Fn(Point) -> Point>(
    turn: F,
    bound: AABB,
    turned: Seq<Point>,
) -> bool {
    &&& turned.len() == 8
    &&& forall|n: int| 0 <= n < 8 ==> turn.ensures((bound.spec_corner(n),), #[trigger] turned[n])
}

/// An object moved by an offset.
#[derive(Debug, Clone, Copy, PartialEq, Eq, Structural)]
pub struct Translate {
    pub offset: Vector,
}

impl Translate {
    pub fn new(offset: Vector) -> (r: Self)
        ensures
            r.offset == offset,
    {
        Self { offset }
    }

    /// `found` is what a search of the moved object may find, where `inner`
    /// searches the object itself along the ray moved back and `shift` moves
    /// a point by the offset: the hit on the object itself, its point moved.
    pub open spec fn searched<H: Fn(i64, i64) -> Option<HitRecord>, F: Fn(Point) -> Point>(
        inner: H,
        shift: F,
        t_min: i64,
        t_max: i64,
        found: Option<HitRecord>,
    ) -> bool {
        exists|local: Option<HitRecord>| #[trigger]
            inner.ensures((t_min, t_max), local) && match local {
                None => found is None,
                Some(hit) => exists|moved: Point| #[trigger]
                    shift.ensures((hit.p,), moved) && found == Some(
                        HitRecord { p: moved, ..hit },
                    ),
            }
    }

    /// The hit of a ray with the moved object between `t_min` and `t_max`,
    /// where `inner(t_min, t_max)` intersects the ray, moved back by the
    /// offset, with the object itself, and `shift` moves a point by the
    /// offset.
    pub fn hit<H: Fn(i64, i64) -> Option<HitRecord>, F: Fn(Point) -> Point>(
        inner: &H,
        shift: &F,
        t_min: i64,
        t_max: i64,
    ) -> (r: Option<HitRecord>)
        requires
            forall|a: i64, b: i64| #[trigger] inner.requires((a, b)),
            forall|p: Point| #[trigger] shift.requires((p,)),
        ensures
            Self::searched(*inner, *shift, t_min, t_max, r),
    {
        match inner(t_min, t_max) {
            Some(hit) => {
                let moved: Point = shift(hit.p);
                Some(HitRecord { p: moved, ..hit })
            },
            None => None,
        }
    }

    /// The box of the moved object, where `inner` is the box of the object
    /// itself and `shift` moves a point by the offset: the box between the
    /// two corners of `inner`, each moved. An object without a box has none
    /// when moved.
    pub fn bounding_box<F: Fn(Point) -> Point>(inner: Option<AABB>, shift: &F) -> (r: Option<AABB>)
        requires
            forall|p: Point| #[trigger] shift.requires((p,)),
        ensures
            r is Some <==> inner is Some,
            r matches Some(moved) ==> shift.ensures(
                (inner.unwrap().spec_minimum(),),
                moved.spec_minimum(),
            ) && shift.ensures((inner.unwrap().spec_maximum(),), moved.spec_maximum()),
    {
        match inner {
            Some(aabb) => Some(AABB::new(shift(aabb.minimum()), shift(aabb.maximum()))),
            None => None,
        }
    }
}

/// An object turned about the y axis.
#[derive(Debug, Clone, Copy, PartialEq, Eq, Structural)]
pub struct RotateY {
    sin_theta: i64,
    cos_theta: i64,
    aabb: Option<AABB>,
}

impl RotateY {
    pub closed spec fn spec_sin_theta(&self) -> i64 {
        self.sin_theta
    }

    pub closed spec fn spec_cos_theta(&self) -> i64 {
        self.cos_theta
    }

    pub closed spec fn spec_bounding_box(&self) -> Option<AABB> {
        self.aabb
    }

    /// The turn by the angle whose sine and cosine are given, of an object
    /// whose box is `inner`, where `turn` turns a point by that angle.
    ///
    /// The box of the turned object is worked out once, here: it is the least
    /// box that holds the eight corners of `inner`, each turned. It holds the
    /// turned object, and as a rule more than that. An object without a box
    /// has none when turned.
    pub fn new<F: Fn(Point) -> Point>(
        inner: Option<AABB>,
        sin_theta: i64,
        cos_theta: i64,
        turn: &F,
    ) -> (r: Self)
        requires
            forall|p: Point| #[trigger] turn.requires((p,)),
        ensures
            r.spec_sin_theta() == sin_theta,
            r.spec_cos_theta() == cos_theta,
            r.spec_bounding_box() is Some <==> inner is Some,
            r.spec_bounding_box() matches Some(outer) ==> outer.wf() && exists|turned: Seq<Point>|
                #[trigger] turned_corners(*turn, inner.unwrap(), turned) && outer.encloses(turned),
    {
        match inner {
            Some(bound) => {
                let corners: Vec<Point> = bound.corners();
                let mut turned: Vec<Point> = Vec::new();
                let mut n: usize = 0;
                while n < 8
                    invariant
                        n <= 8,
                        corners@.len() == 8,
                        turned@.len() == n,
                        forall|p: Point| #[trigger] turn.requires((p,)),
                        forall|m: int| 0 <= m < 8 ==> corners@[m] == bound.spec_corner(m),
                        forall|m: int|
                            0 <= m < n ==> turn.ensures(
                                (bound.spec_corner(m),),
                                #[trigger] turned@[m],
                            ),
                    decreases 8 - n,
                {
                    let tester: Point = turn(corners[n]);
                    turned.push(tester);
                    n = n + 1;
                }
                let aabb: Option<AABB> = AABB::enclosing(&turned);
                proof {
                    assert(turned_corners(*turn, bound, turned@));
                }
                Self { sin_theta, cos_theta, aabb }
            },
            None => Self { sin_theta, cos_theta, aabb: None },
        }
    }

    /// `found` is what a search of the turned object may find, where
    /// `inner` searches the object itself along the ray turned back and
    /// `turn` turns a point or a direction by the angle: the hit on the object
    /// itself, its point and its normal turned.
    pub open spec fn searched<H: Fn(i64, i64) -> Option<HitRecord>, F: Fn(Point) -> Point>(
        inner: H,
        turn: F,
        t_min: i64,
        t_max: i64,
        found: Option<HitRecord>,
    ) -> bool {
        exists|local: Option<HitRecord>| #[trigger]
            inner.ensures((t_min, t_max), local) && match local {
                None => found is None,
                Some(hit) => exists|p: Point, normal: Point|
                    {
                        &&& #[trigger] turn.ensures((hit.p,), p)
                        &&& #[trigger] turn.ensures((hit.normal,), normal)
                        &&& found == Some(HitRecord { p, normal, ..hit })
                    },
            }
    }

    /// The hit of a ray with the turned object between `t_min` and `t_max`,
    /// where `inner(t_min, t_max)` intersects the ray, turned back by the
    /// angle, with the object itself, and `turn` turns a point or a direction
    /// by the angle.
    pub fn hit<H: Fn(i64, i64) -> Option<HitRecord>, F: Fn(Point) -> Point>(
        inner: &H,
        turn: &F,
        t_min: i64,
        t_max: i64,
    ) -> (r: Option<HitRecord>)
        requires
            forall|a: i64, b: i64| #[trigger] inner.requires((a, b)),
            forall|p: Point| #[trigger] turn.requires((p,)),
        ensures
            Self::searched(*inner, *turn, t_min, t_max, r),
    {
        match inner(t_min, t_max) {
            Some(hit) => {
                let p: Point = turn(hit.p);
                let normal: Point = turn(hit.normal);
                Some(HitRecord { p, normal, ..hit })
            },
            None => None,
        }
    }

    /// The sine of the angle.
    pub fn sin_theta(&self) -> (r: i64)
        ensures
            r == self.spec_sin_theta(),
    {
        self.sin_theta
    }

    /// The cosine of the angle.
    pub fn cos_theta(&self) -> (r: i64)
        ensures
            r == self.spec_cos_theta(),
    {
        self.cos_theta
    }

    /// The box of the turned object, as it was worked out when the turn was
    /// made.
    pub fn bounding_box(&self) -> (r: Option<AABB>)
        ensures
            r == self.spec_bounding_box(),
    {
        self.aabb
    }
}

} // verus!

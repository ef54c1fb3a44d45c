//! Participating media: where in a medium of constant density a ray is
//! scattered.

use crate::aabb::{max, min, spec_max, spec_min};
use crate::record::{Crossing, HitRecord};
use vstd::prelude::*;

verus! {

/// The stretch of a ray inside a convex boundary that a search between
/// `t_min` and `t_max` has to consider.
///
/// The ray enters the boundary at `entry` and leaves it at `exit`. Both are
/// drawn into the range; if nothing is left between them there is no
/// stretch. What is left does not start behind the ray's origin, whose
/// parameter is `origin`.
pub open spec fn spec_clip_span(entry: i64, exit: i64, t_min: i64, t_max: i64, origin: i64) -> Option<
    (i64, i64),
> {
    let start = spec_max(entry, t_min);
    let end = spec_min(exit, t_max);
    if start >= end {
        None
    } else {
        Some((spec_max(start, origin), end))
    }
}

/// The stretch of a ray inside a convex boundary that a search between
/// `t_min` and `t_max` has to consider.
#[verifier::when_used_as_spec(spec_clip_span)]
pub fn clip_span(entry: i64, exit: i64, t_min: i64, t_max: i64, origin: i64) -> (r: Option<
    (i64, i64),
>)
    ensures
        r == spec_clip_span(entry, exit, t_min, t_max, origin),
        r matches Some((start, end)) ==> t_min <= start && end <= t_max && entry <= start && end
            <= exit,
{
    let start: i64 = max(entry, t_min);
    let end: i64 = min(exit, t_max);
    if start >= end {
        return None;
    }
    Some((max(start, origin), end))
}

/// The ends of the rank order and the rank of the ray's origin, which a
/// search inside a medium needs to know.
#[derive(Debug, Clone, Copy, PartialEq, Eq, Structural)]
pub struct Marks {
    /// The rank below all others, that of minus infinity.
    pub lowest: i64,
    /// The rank above all others, that of infinity.
    pub highest: i64,
    /// The rank of 0, the parameter of the ray's origin.
    pub origin: i64,
}

/// How far a ray gets in a medium: the length of the free path that was
/// drawn for it, the length of its way through the medium, and the place
/// where the free path ends.
#[derive(Debug, Clone, Copy, PartialEq, Eq, Structural)]
pub struct FreePath {
    pub drawn: i64,
    pub available: i64,
    pub at: Crossing,
}

impl FreePath {
    /// The hit on `material` in which this free path ends: none where the
    /// path drawn is longer than the way through the medium.
    pub open spec fn spec_end(self, material: usize) -> Option<HitRecord> {
        if self.drawn > self.available {
            None
        } else {
            Some(self.at.spec_record(material))
        }
    }

    /// The hit on `material` in which this free path ends.
    #[verifier::when_used_as_spec(spec_end)]
    pub fn end(self, material: usize) -> (r: Option<HitRecord>)
        ensures
            r == self.spec_end(material),
    {
        if self.drawn > self.available {
            None
        } else {
            Some(self.at.record(material))
        }
    }
}

/// A medium of constant density inside a convex boundary. It scatters by the
/// material at place `phase_function` of the scene's table of materials.
#[derive(Debug, Clone, Copy, PartialEq, Eq, Structural)]
pub struct ConstantVolume {
    pub phase_function: usize,
    pub negative_inverse_density: i64,
}

impl ConstantVolume {
    pub fn new(negative_inverse_density: i64, phase_function: usize) -> (r: Self)
        ensures
            r == (ConstantVolume { phase_function, negative_inverse_density }),
    {
        Self { phase_function, negative_inverse_density }
    }

    /// `found` is what a search of the medium may find between `t_min` and
    /// `t_max`.
    ///
    /// The boundary is searched without limits for the place where the ray
    /// enters it, and from just behind that place on, as `nudge` moves it,
    /// for the place where the ray leaves. Nothing is found unless both
    /// exist and a stretch of the ray between them is left inside the
    /// range. On that stretch `free_path` draws how far the ray gets; unless
    /// that is farther than the stretch is long, the ray is scattered where
    /// it gets to, and the hit is that crossing, on the medium's material.
    pub open spec fn searched<
        B: Fn(i64, i64) -> Option<HitRecord>,
        N: Fn(i64) -> i64,
        P: Fn(i64, i64) -> FreePath,
    >(
        self,
        boundary: B,
        nudge: N,
        free_path: P,
        marks: Marks,
        t_min: i64,
        t_max: i64,
        found: Option<HitRecord>,
    ) -> bool {
        exists|hit1: Option<HitRecord>| #[trigger]
            boundary.ensures((marks.lowest, marks.highest), hit1) && match hit1 {
                None => found is None,
                Some(h1) => self.left_behind(
                    boundary,
                    nudge,
                    free_path,
                    marks,
                    t_min,
                    t_max,
                    h1,
                    found,
                ),
            }
    }

    /// `found` is what a search of the medium may find where the ray enters
    /// the boundary at `h1`.
    pub open spec fn left_behind<
        B: Fn(i64, i64) -> Option<HitRecord>,
        N: Fn(i64) -> i64,
        P: Fn(i64, i64) -> FreePath,
    >(
        self,
        boundary: B,
        nudge: N,
        free_path: P,
        marks: Marks,
        t_min: i64,
        t_max: i64,
        h1: HitRecord,
        found: Option<HitRecord>,
    ) -> bool {
        exists|from: i64, hit2: Option<HitRecord>|
            {
                &&& nudge.ensures((h1.t,), from)
                &&& #[trigger] boundary.ensures((from, marks.highest), hit2)
                &&& match hit2 {
                    None => found is None,
                    Some(h2) => match spec_clip_span(h1.t, h2.t, t_min, t_max, marks.origin) {
                        None => found is None,
                        Some((start, end)) => self.scattered_on(free_path, start, end, found),
                    },
                }
            }
    }

    /// `found` is what a search of the medium may find on the stretch of
    /// the ray from `start` to `end`.
    pub open spec fn scattered_on<P: Fn(i64, i64) -> FreePath>(
        self,
        free_path: P,
        start: i64,
        end: i64,
        found: Option<HitRecord>,
    ) -> bool {
        exists|path: FreePath| #[trigger]
            free_path.ensures((start, end), path) && found == path.spec_end(self.phase_function)
    }

    /// The place between `t_min` and `t_max` where the medium scatters a
    /// ray, if it does.
    ///
    /// `boundary(from, to)` intersects the ray with the boundary between two
    /// parameters, `nudge(t)` is the parameter just behind `t`, and
    /// `free_path(start, end)` draws how far the ray gets on the stretch from
    /// `start` to `end`. The boundary has to be convex: a ray that enters it
    /// a second time is not followed.
    pub fn hit<
        B: Fn(i64, i64) -> Option<HitRecord>,
        N: Fn(i64) -> i64,
        P: Fn(i64, i64) -> FreePath,
    >(
        &self,
        boundary: &B,
        nudge: &N,
        free_path: &P,
        marks: Marks,
        t_min: i64,
        t_max: i64,
    ) -> (r: Option<HitRecord>)
        requires
            forall|a: i64, b: i64| #[trigger] boundary.requires((a, b)),
            forall|t: i64| #[trigger] nudge.requires((t,)),
            forall|a: i64, b: i64| #[trigger] free_path.requires((a, b)),
        ensures
            self.searched(*boundary, *nudge, *free_path, marks, t_min, t_max, r),
    {
        let hit1: HitRecord = match boundary(marks.lowest, marks.highest) {
            Some(hit) => hit,
            None => {
                return None;
            },
        };
        let from: i64 = nudge(hit1.t);
        let hit2: HitRecord = match boundary(from, marks.highest) {
            Some(hit) => hit,
            None => {
                proof {
                    assert(self.left_behind(
                        *boundary,
                        *nudge,
                        *free_path,
                        marks,
                        t_min,
                        t_max,
                        hit1,
                        None,
                    ));
                }
                return None;
            },
        };
        let found: Option<HitRecord> = match clip_span(hit1.t, hit2.t, t_min, t_max, marks.origin) {
            None => None,
            Some((start, end)) => {
                let path: FreePath = free_path(start, end);
                let found: Option<HitRecord> = path.end(self.phase_function);
                proof {
                    assert(self.scattered_on(*free_path, start, end, found));
                }
                found
            },
        };
        proof {
            assert(boundary.ensures((from, marks.highest), Some(hit2)));
            assert(self.left_behind(
                *boundary,
                *nudge,
                *free_path,
                marks,
                t_min,
                t_max,
                hit1,
                found,
            ));
        }
        found
    }
}

} // verus!

//! What an intersection reports.

use crate::math::Point;
use vstd::prelude::*;

verus! {

/// Which side of a surface a ray struck.
#[derive(Debug, Clone, Copy, PartialEq, Eq, Structural)]
pub enum Face {
    Front,
    Back,
}

/// One intersection of a ray with an object: where, at which ray parameter,
/// at which surface coordinates, with which normal, on which face, and the
/// place of the object's material in the scene's table of materials.
#[derive(Debug, Clone, Copy, PartialEq, Eq, Structural)]
pub struct HitRecord {
    pub p: Point,
    pub t: i64,
    pub u: i64,
    pub v: i64,
    pub normal: Point,
    pub material: usize,
    pub face: Face,
}

impl HitRecord {
    /// The record of a hit whose geometric normal is `outward_normal`.
    ///
    /// `dot` is the rank of the product of the ray's direction with that
    /// normal and `zero` the rank of 0: the ray runs along the normal, and so
    /// leaves the object, where the product lies above zero.
    /// `reversed_normal` is the opposite of `outward_normal`. The normal that
    /// is kept is the one of the two that faces against the ray, and the face
    /// says which one that was.
    pub fn new(
        p: Point,
        t: i64,
        u: i64,
        v: i64,
        outward_normal: Point,
        reversed_normal: Point,
        dot: i64,
        zero: i64,
        material: usize,
    ) -> (r: Self)
        ensures
            r.p == p,
            r.t == t,
            r.u == u,
            r.v == v,
            r.material == material,
            dot > zero ==> r.face == Face::Back && r.normal == reversed_normal,
            dot <= zero ==> r.face == Face::Front && r.normal == outward_normal,
    {
        if dot > zero {
            HitRecord { p, t, u, v, normal: reversed_normal, material, face: Face::Back }
        } else {
            HitRecord { p, t, u, v, normal: outward_normal, material, face: Face::Front }
        }
    }
}

/// Where a ray meets a surface, before it is known whether the meeting
/// counts as a hit: the ray parameter, the point, the surface coordinates,
/// the geometric normal and its opposite, the rank of the product of the
/// ray's direction with the geometric normal, and the rank of 0.
#[derive(Debug, Clone, Copy, PartialEq, Eq, Structural)]
pub struct Crossing {
    pub t: i64,
    pub p: Point,
    pub u: i64,
    pub v: i64,
    pub outward_normal: Point,
    pub reversed_normal: Point,
    pub dot: i64,
    pub zero: i64,
}

impl Crossing {
    /// The record of this crossing as a hit on `material`.
    pub open spec fn spec_record(self, material: usize) -> HitRecord {
        HitRecord {
            p: self.p,
            t: self.t,
            u: self.u,
            v: self.v,
            normal: if self.dot > self.zero {
                self.reversed_normal
            } else {
                self.outward_normal
            },
            material,
            face: if self.dot > self.zero {
                Face::Back
            } else {
                Face::Front
            },
        }
    }

    /// The record of this crossing as a hit on `material`.
    #[verifier::when_used_as_spec(spec_record)]
    pub fn record(self, material: usize) -> (r: HitRecord)
        ensures
            r == self.spec_record(material),
    {
        HitRecord::new(
            self.p,
            self.t,
            self.u,
            self.v,
            self.outward_normal,
            self.reversed_normal,
            self.dot,
            self.zero,
            material,
        )
    }
}

/// The ray parameter of a hit, if there is one.
pub open spec fn time(hit: Option<HitRecord>) -> Option<i64> {
    match hit {
        Some(h) => Some(h.t),
        None => None,
    }
}

/// How far a search still reaches once `found` is known: up to the hit
/// found, or up to `t_max` if none was.
pub open spec fn spec_limit(found: Option<HitRecord>, t_max: i64) -> i64 {
    match found {
        Some(h) => h.t,
        None => t_max,
    }
}

/// Of an earlier and a later finding, the one that counts: the later if it
/// is a hit, else the earlier.
pub open spec fn spec_prefer(earlier: Option<HitRecord>, later: Option<HitRecord>) -> Option<
    HitRecord,
> {
    if later is Some {
        later
    } else {
        earlier
    }
}

/// How far a search still reaches once `found` is known.
#[verifier::when_used_as_spec(spec_limit)]
pub fn limit(found: Option<HitRecord>, t_max: i64) -> (r: i64)
    ensures
        r == spec_limit(found, t_max),
{
    match found {
        Some(h) => h.t,
        None => t_max,
    }
}

/// Of an earlier and a later finding, the one that counts.
#[verifier::when_used_as_spec(spec_prefer)]
pub fn prefer(earlier: Option<HitRecord>, later: Option<HitRecord>) -> (r: Option<HitRecord>)
    ensures
        r == spec_prefer(earlier, later),
{
    if later.is_some() {
        later
    } else {
        earlier
    }
}

} // verus!

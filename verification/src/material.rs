//! Materials: what becomes of a ray that hits a surface.

use crate::math::{near_zero, spec_near_zero, Color, Vector};
use crate::ray::Ray;
use crate::record::{Face, HitRecord};
use vstd::prelude::*;

verus! {

/// The outcome of a scattering: the ray that leaves the surface, and how
/// much of each colour it carries on.
#[derive(Debug, Clone, Copy, PartialEq, Eq, Structural)]
pub struct ScatterRecord {
    pub ray: Ray,
    pub attentuation: Color,
}

/// A diffuse surface. Its colour comes from the texture at place `albedo` of
/// the scene's table of textures.
#[derive(Debug, Clone, Copy, PartialEq, Eq, Structural)]
pub struct Lambertian {
    pub albedo: usize,
}

/// A mirror, blurred by `fuzz`.
#[derive(Debug, Clone, Copy, PartialEq, Eq, Structural)]
pub struct Metal {
    pub albedo: Color,
    pub fuzz: i64,
}

/// Glass and the like.
#[derive(Debug, Clone, Copy, PartialEq, Eq, Structural)]
pub struct Dielectric {
    pub refraction_index: i64,
}

/// A surface that emits light, as the texture at place `emit` tells.
#[derive(Debug, Clone, Copy, PartialEq, Eq, Structural)]
pub struct DiffuseLight {
    pub emit: usize,
}

/// The phase function of a medium that scatters alike in all directions.
#[derive(Debug, Clone, Copy, PartialEq, Eq, Structural)]
pub struct Isotropic {
    pub albedo: usize,
}

/// What a dielectric does with a ray.
#[derive(Debug, Clone, Copy, PartialEq, Eq, Structural)]
pub enum Bend {
    Reflect,
    Refract,
}

impl Lambertian {
    pub fn new(albedo: usize) -> (r: Self)
        ensures
            r.albedo == albedo,
    {
        Self { albedo }
    }

    /// The direction in which a diffuse surface scatters: `scatter_direction`,
    /// the sum of the normal and a random unit vector, or the normal itself
    /// where that sum is near zero.
    pub open spec fn spec_direction(
        normal: Vector,
        scatter_direction: Vector,
        low: i64,
        high: i64,
    ) -> Vector {
        if spec_near_zero(&scatter_direction, low, high) {
            normal
        } else {
            scatter_direction
        }
    }

    /// Scatters a ray cast at `time` that hit the surface at `hit`. A diffuse
    /// surface always scatters.
    ///
    /// `scatter_direction` is the sum of the hit's normal and a random unit
    /// vector, `low` and `high` are the ranks between which a component
    /// counts as zero, and `attentuation` is the texture's value at the hit.
    pub fn scatter(
        &self,
        time: i64,
        hit: &HitRecord,
        scatter_direction: Vector,
        low: i64,
        high: i64,
        attentuation: Color,
    ) -> (r: Option<ScatterRecord>)
        ensures
            r == Some(
                ScatterRecord {
                    ray: Ray::from_parts(
                        hit.p,
                        Self::spec_direction(hit.normal, scatter_direction, low, high),
                        time,
                    ),
                    attentuation,
                },
            ),
    {
        let mut direction: Vector = scatter_direction;
        if near_zero(&direction, low, high) {
            direction = hit.normal;
        }
        Some(ScatterRecord { ray: Ray::new(hit.p, direction, time), attentuation })
    }
}

impl Metal {
    pub fn new(albedo: Color, fuzz: i64) -> (r: Self)
        ensures
            r.albedo == albedo,
            r.fuzz == fuzz,
    {
        Self { albedo, fuzz }
    }

    /// Scatters a ray cast at `time` that hit the surface at `hit`, into
    /// `direction`: the mirrored direction, moved by a random vector as the
    /// fuzz asks. A metal always scatters, also where the fuzz has turned the
    /// direction into the surface.
    pub fn scatter(&self, time: i64, hit: &HitRecord, direction: Vector) -> (r: Option<
        ScatterRecord,
    >)
        ensures
            r == Some(
                ScatterRecord {
                    ray: Ray::from_parts(hit.p, direction, time),
                    attentuation: self.albedo,
                },
            ),
    {
        Some(ScatterRecord { ray: Ray::new(hit.p, direction, time), attentuation: self.albedo })
    }
}

impl Dielectric {
    pub fn new(refraction_index: i64) -> (r: Self)
        ensures
            r.refraction_index == refraction_index,
    {
        Self { refraction_index }
    }

    /// The ratio of the refraction indices that a ray meets on `face`: the
    /// inverse of the material's index where it enters, the index itself
    /// where it leaves.
    pub open spec fn spec_refraction_ratio(self, face: Face, inverse_index: i64) -> i64 {
        match face {
            Face::Front => inverse_index,
            Face::Back => self.refraction_index,
        }
    }

    /// Whether a dielectric reflects or refracts.
    ///
    /// `ratio_sine` is the refraction ratio times the sine of the angle of
    /// incidence, and `one` the rank of 1: above it no refracted ray exists.
    /// Otherwise the ray is reflected where the reflectance exceeds `draw`,
    /// a random number between 0 and 1.
    pub open spec fn spec_bend(ratio_sine: i64, one: i64, reflectance: i64, draw: i64) -> Bend {
        if ratio_sine > one || reflectance > draw {
            Bend::Reflect
        } else {
            Bend::Refract
        }
    }

    /// The ratio of the refraction indices that a ray meets on `face`, where
    /// `inverse_index` is the inverse of the material's index.
    pub fn refraction_ratio(&self, face: Face, inverse_index: i64) -> (r: i64)
        ensures
            r == self.spec_refraction_ratio(face, inverse_index),
    {
        match face {
            Face::Front => inverse_index,
            Face::Back => self.refraction_index,
        }
    }

    /// Whether a dielectric reflects or refracts. Beyond the critical angle
    /// it reflects, whatever is drawn.
    pub fn bend(ratio_sine: i64, one: i64, reflectance: i64, draw: i64) -> (r: Bend)
        ensures
            r == Self::spec_bend(ratio_sine, one, reflectance, draw),
            ratio_sine > one ==> r == Bend::Reflect,
            ratio_sine <= one && reflectance <= draw ==> r == Bend::Refract,
    {
        if ratio_sine > one || reflectance > draw {
            Bend::Reflect
        } else {
            Bend::Refract
        }
    }

    /// Scatters a ray cast at `time` that hit the surface at `hit`: into
    /// `reflected` or into `refracted`, as `bend` decides. A dielectric
    /// always scatters, and `white`, the colour that it hands on, is the
    /// caller's rank of full intensity in each part. Beyond the critical
    /// angle the ray is reflected, whatever is drawn.
    pub fn scatter(
        &self,
        time: i64,
        hit: &HitRecord,
        ratio_sine: i64,
        one: i64,
        reflectance: i64,
        draw: i64,
        reflected: Vector,
        refracted: Vector,
        white: Color,
    ) -> (r: Option<ScatterRecord>)
        ensures
            r == Some(
                ScatterRecord {
                    ray: Ray::from_parts(
                        hit.p,
                        if Self::spec_bend(ratio_sine, one, reflectance, draw) == Bend::Reflect {
                            reflected
                        } else {
                            refracted
                        },
                        time,
                    ),
                    attentuation: white,
                },
            ),
            ratio_sine > one ==> r.unwrap().ray.spec_direction() == reflected,
            ratio_sine <= one && reflectance <= draw ==> r.unwrap().ray.spec_direction()
                == refracted,
    {
        proof {
            broadcast use Ray::lemma_parts;

        }
        let direction: Vector = match Self::bend(ratio_sine, one, reflectance, draw) {
            Bend::Reflect => reflected,
            Bend::Refract => refracted,
        };
        Some(ScatterRecord { ray: Ray::new(hit.p, direction, time), attentuation: white })
    }
}

impl DiffuseLight {
    pub fn new(emit: usize) -> (r: Self)
        ensures
            r.emit == emit,
    {
        Self { emit }
    }

    /// A light never scatters.
    pub fn scatter(&self) -> (r: Option<ScatterRecord>)
        ensures
            r is None,
    {
        None
    }
}

impl Isotropic {
    pub fn new(albedo: usize) -> (r: Self)
        ensures
            r.albedo == albedo,
    {
        Self { albedo }
    }

    /// Scatters a ray cast at `time` that hit the medium at `hit`, into
    /// `direction`, a random vector of the unit sphere.
    pub fn scatter(
        &self,
        time: i64,
        hit: &HitRecord,
        direction: Vector,
        attentuation: Color,
    ) -> (r: Option<ScatterRecord>)
        ensures
            r == Some(ScatterRecord { ray: Ray::from_parts(hit.p, direction, time), attentuation }),
    {
        Some(ScatterRecord { ray: Ray::new(hit.p, direction, time), attentuation })
    }
}

/// A material: one of the five kinds.
#[derive(Debug, Clone, Copy, PartialEq, Eq, Structural)]
pub enum Material {
    Lambertian(Lambertian),
    Metal(Metal),
    Dielectric(Dielectric),
    DiffuseLight(DiffuseLight),
    Isotropic(Isotropic),
}

impl Material {
    /// The texture, by its place in the scene's table of textures, whose
    /// value the material emits: that of a light, and none for every other
    /// material, which emits nothing.
    pub open spec fn spec_emitted(self) -> Option<usize> {
        match self {
            Material::DiffuseLight(light) => Some(light.emit),
            _ => None,
        }
    }

    /// The texture whose value the material emits, if it emits at all. Only
    /// a light does.
    pub fn emitted(&self) -> (r: Option<usize>)
        ensures
            r == self.spec_emitted(),
            r is Some <==> self is DiffuseLight,
    {
        match self {
            Material::DiffuseLight(light) => Some(light.emit),
            _ => None,
        }
    }
}

/// At the critical angle and beyond, a dielectric reflects whatever is
/// drawn and whatever its reflectance.
pub proof fn lemma_total_internal_reflection(
    ratio_sine: i64,
    one: i64,
    reflectance: i64,
    draw: i64,
)
    requires
        ratio_sine > one,
    ensures
        Dielectric::spec_bend(ratio_sine, one, reflectance, draw) == Bend::Reflect,
{
}

/// Below the critical angle, a dielectric refracts exactly when the draw
/// reaches the reflectance.
pub proof fn lemma_refraction(ratio_sine: i64, one: i64, reflectance: i64, draw: i64)
    requires
        ratio_sine <= one,
    ensures
        Dielectric::spec_bend(ratio_sine, one, reflectance, draw) == Bend::Refract <==> reflectance
            <= draw,
{
}

} // verus!

//! Rays, and what the path integrator does with one.

use crate::material::ScatterRecord;
use crate::math::{Color, Point, Vector};
use vstd::prelude::*;

verus! {

/// A ray: where it starts, where it heads, and the moment at which it is
/// cast.
#[derive(Debug, Clone, Copy, PartialEq, Eq, Structural)]
pub struct Ray {
    origin: Point,
    direction: Vector,
    time: i64,
}

impl Ray {
    pub closed spec fn spec_origin(&self) -> Point {
        self.origin
    }

    pub closed spec fn spec_direction(&self) -> Vector {
        self.direction
    }

    pub closed spec fn spec_time(&self) -> i64 {
        self.time
    }

    /// The ray with the given parts.
    pub closed spec fn from_parts(origin: Point, direction: Vector, time: i64) -> Ray {
        Ray { origin, direction, time }
    }

    /// A ray is fixed by its three parts.
    pub broadcast proof fn lemma_parts(origin: Point, direction: Vector, time: i64)
        ensures
            (#[trigger] Ray::from_parts(origin, direction, time)).spec_origin() == origin,
            Ray::from_parts(origin, direction, time).spec_direction() == direction,
            Ray::from_parts(origin, direction, time).spec_time() == time,
    {
    }

    pub fn new(origin: Point, direction: Vector, time: i64) -> (r: Self)
        ensures
            r == Ray::from_parts(origin, direction, time),
            r.spec_origin() == origin,
            r.spec_direction() == direction,
            r.spec_time() == time,
    {
        Self { origin, direction, time }
    }

    pub fn direction(&self) -> (r: &Vector)
        ensures
            *r == self.spec_direction(),
    {
        &self.direction
    }

    pub fn origin(&self) -> (r: &Point)
        ensures
            *r == self.spec_origin(),
    {
        &self.origin
    }

    #[verifier::when_used_as_spec(spec_time)]
    pub fn time(&self) -> (r: i64)
        ensures
            r == self.spec_time(),
    {
        self.time
    }
}

/// What a ray met on its way.
#[derive(Debug, Clone, Copy, PartialEq, Eq, Structural)]
pub enum Event {
    /// It left the scene without a hit.
    Miss,
    /// It hit a surface that did not scatter it and that emits `emitted`.
    Absorbed { emitted: Color },
    /// It hit a surface that emits `emitted` and that scattered it as
    /// `scatter` tells.
    Scattered { emitted: Color, scatter: ScatterRecord },
}

/// `color` is what `ray` may gather with `depth` bounces left.
///
/// With no bounce left that is `black`, and the ray is not even cast.
/// Otherwise `cast` says what the ray meets between `t_min` and `t_max`,
/// the same range for every ray of the path. A ray that leaves the scene
/// gathers `background`; one that is absorbed gathers what the surface
/// emits; one that is scattered gathers what the surface emits and, weighted
/// part by part by the attenuation, what the scattered ray gathers with one
/// bounce less. `tint` weights a colour by another, and `mix` adds two.
pub open spec fn gathered<
    C: Fn(Ray, i64, i64) -> Event,
    M: Fn(Color, Color) -> Color,
    A: Fn(Color, Color) -> Color,
>(
    ray: Ray,
    background: Color,
    black: Color,
    depth: i64,
    t_min: i64,
    t_max: i64,
    cast: C,
    tint: M,
    mix: A,
    color: Color,
) -> bool
    decreases depth,
{
    if depth <= 0 {
        color == black
    } else {
        exists|event: Event| #[trigger]
            cast.ensures((ray, t_min, t_max), event) && match event {
                Event::Miss => color == background,
                Event::Absorbed { emitted } => color == emitted,
                Event::Scattered { emitted, scatter } => exists|deeper: Color, weighted: Color|
                    {
                        &&& gathered(
                            scatter.ray,
                            background,
                            black,
                            (depth - 1) as i64,
                            t_min,
                            t_max,
                            cast,
                            tint,
                            mix,
                            deeper,
                        )
                        &&& #[trigger] tint.ensures((scatter.attentuation, deeper), weighted)
                        &&& #[trigger] mix.ensures((emitted, weighted), color)
                    },
            }
    }
}

impl Ray {
    /// What this ray gathers with `depth` bounces left.
    ///
    /// `cast(ray, t_min, t_max)` casts a ray into the scene and says what it
    /// meets between the two parameters: `t_min` is the rank of a small
    /// positive number, which keeps a scattered ray from hitting the surface
    /// that it leaves, and `t_max` that of infinity.
    /// `tint(a, b)` weights the colour `b` part by part by `a`, and
    /// `mix(a, b)` adds two colours. With no bounce left the ray gathers
    /// `black`, whatever the scene holds, and nothing is cast.
    pub fn color<C: Fn(Ray, i64, i64) -> Event, M: Fn(Color, Color) -> Color, A: Fn(Color, Color) -> Color>(
        &self,
        background: Color,
        black: Color,
        depth: i64,
        t_min: i64,
        t_max: i64,
        cast: &C,
        tint: &M,
        mix: &A,
    ) -> (r: Color)
        requires
            forall|ray: Ray, a: i64, b: i64| #[trigger] cast.requires((ray, a, b)),
            forall|a: Color, b: Color| #[trigger] tint.requires((a, b)),
            forall|a: Color, b: Color| #[trigger] mix.requires((a, b)),
        ensures
            gathered(*self, background, black, depth, t_min, t_max, *cast, *tint, *mix, r),
            depth <= 0 ==> r == black,
        decreases depth,
    {
        // With no bounce left, the ray gathers no further light.
        if depth <= 0 {
            return black;
        }
        let event: Event = cast(*self, t_min, t_max);
        match event {
            Event::Miss => background,
            Event::Absorbed { emitted } => emitted,
            Event::Scattered { emitted, scatter } => {
                let deeper: Color = scatter.ray.color(
                    background,
                    black,
                    depth - 1,
                    t_min,
                    t_max,
                    cast,
                    tint,
                    mix,
                );
                let weighted: Color = tint(scatter.attentuation, deeper);
                let color: Color = mix(emitted, weighted);
                proof {
                    assert(tint.ensures((scatter.attentuation, deeper), weighted));
                    assert(mix.ensures((emitted, weighted), color));
                }
                color
            },
        }
    }
}

/// A ray with no bounce left gathers nothing, whatever the scene holds.
pub proof fn lemma_no_depth_is_black<
    C: Fn(Ray, i64, i64) -> Event,
    M: Fn(Color, Color) -> Color,
    A: Fn(Color, Color) -> Color,
>(
    ray: Ray,
    background: Color,
    black: Color,
    depth: i64,
    t_min: i64,
    t_max: i64,
    cast: C,
    tint: M,
    mix: A,
    color: Color,
)
    requires
        depth <= 0,
        gathered(ray, background, black, depth, t_min, t_max, cast, tint, mix, color),
    ensures
        color == black,
{
}

/// Whether no ray cast into the scene is ever scattered.
pub open spec fn never_scatters<C: Fn(Ray, i64, i64) -> Event>(cast: C) -> bool {
    forall|ray: Ray, t_min: i64, t_max: i64, event: Event| #[trigger]
        cast.ensures((ray, t_min, t_max), event) ==> !(event is Scattered)
}

/// In a scene where no surface scatters, a ray gathers exactly what the
/// surface that it hits emits, or the background where it hits none, however
/// many bounces it has left.
pub proof fn lemma_emissive_scene_is_direct<
    C: Fn(Ray, i64, i64) -> Event,
    M: Fn(Color, Color) -> Color,
    A: Fn(Color, Color) -> Color,
>(
    ray: Ray,
    background: Color,
    black: Color,
    depth: i64,
    t_min: i64,
    t_max: i64,
    cast: C,
    tint: M,
    mix: A,
    color: Color,
)
    requires
        depth > 0,
        never_scatters(cast),
        gathered(ray, background, black, depth, t_min, t_max, cast, tint, mix, color),
    ensures
        exists|event: Event| #[trigger]
            cast.ensures((ray, t_min, t_max), event) && match event {
                Event::Absorbed { emitted } => color == emitted,
                _ => color == background,
            },
{
    let event = choose|event: Event| #[trigger]
        cast.ensures((ray, t_min, t_max), event) && match event {
            Event::Miss => color == background,
            Event::Absorbed { emitted } => color == emitted,
            Event::Scattered { emitted, scatter } => exists|deeper: Color, weighted: Color|
                {
                    &&& gathered(
                        scatter.ray,
                        background,
                        black,
                        (depth - 1) as i64,
                        t_min,
                        t_max,
                        cast,
                        tint,
                        mix,
                        deeper,
                    )
                    &&& #[trigger] tint.ensures((scatter.attentuation, deeper), weighted)
                    &&& #[trigger] mix.ensures((emitted, weighted), color)
                },
        };
    assert(!(event is Scattered));
}

} // verus!

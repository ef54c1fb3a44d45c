use pathtracer::material::{
    Bend, Dielectric, DiffuseLight, Isotropic, Lambertian, Material, Metal, ScatterRecord,
};
use pathtracer::math::{near_zero, within, Point};
use pathtracer::ray::{Event, Ray};
use pathtracer::record::{Face, HitRecord};

fn rank(x: f64) -> i64 {
    let bits = x.to_bits() as i64;
    bits ^ ((((bits >> 63) as u64) >> 1) as i64)
}

fn hit() -> HitRecord {
    HitRecord::new(Point::new(1, 2, 3), 50, 6, 7, Point::new(0, 9, 0), Point::new(0, -9, 0), -1, 0, 4)
}

#[test]
fn ray_keeps_its_parts() {
    let ray = Ray::new(Point::new(1, 2, 3), Point::new(4, 5, 6), 7);
    assert_eq!(*ray.origin(), Point::new(1, 2, 3));
    assert_eq!(*ray.direction(), Point::new(4, 5, 6));
    assert_eq!(ray.time(), 7);
}

fn plus(a: Point, b: Point) -> Point {
    Point::new(a.x + b.x, a.y + b.y, a.z + b.z)
}

fn part_by_part(a: Point, b: Point) -> Point {
    Point::new(a.x * b.x, a.y * b.y, a.z * b.z)
}

fn first_ray() -> Ray {
    Ray::new(Point::new(0, 0, 0), Point::new(0, 0, 1), 0)
}

const BACKGROUND: Point = Point { x: 70, y: 80, z: 100 };
const BLACK: Point = Point { x: 0, y: 0, z: 0 };

/// A surface that emits nothing and scatters every ray one step on, with
/// half of its light in tenths.
fn mirror_hall(ray: Ray, _: i64, _: i64) -> Event {
    let next = Ray::new(Point::new(ray.origin().x + 1, 0, 0), *ray.direction(), ray.time());
    Event::Scattered { emitted: BLACK, scatter: ScatterRecord { ray: next, attentuation: Point::new(2, 2, 2) } }
}

#[test]
fn depth_zero_is_black() {
    let never = |_: Ray, _: i64, _: i64| -> Event { panic!("a ray without a bounce left is not cast") };
    for depth in [0, -1, i64::MIN] {
        assert_eq!(first_ray().color(BACKGROUND, BLACK, depth, 1, 1000, &never, &part_by_part, &plus), BLACK);
    }
}

#[test]
fn ray_that_leaves_the_scene_gathers_the_background() {
    let miss = |_: Ray, _: i64, _: i64| Event::Miss;
    assert_eq!(first_ray().color(BACKGROUND, BLACK, 50, 1, 1000, &miss, &part_by_part, &plus), BACKGROUND);
    assert_eq!(first_ray().color(BACKGROUND, BLACK, 1, 1, 1000, &miss, &part_by_part, &plus), BACKGROUND);
}

#[test]
fn emissive_scene_gives_what_the_first_ray_sees() {
    let light = |_: Ray, _: i64, _: i64| Event::Absorbed { emitted: Point::new(4, 4, 4) };
    for depth in [1, 2, 50] {
        assert_eq!(first_ray().color(BACKGROUND, BLACK, depth, 1, 1000, &light, &part_by_part, &plus), Point::new(4, 4, 4));
    }
}

#[test]
fn scattered_ray_adds_what_it_gathers_weighted_by_the_attenuation() {
    // Two bounces off surfaces that emit 1 and let 3 in 1 through, then the background.
    let cast = |ray: Ray, _: i64, _: i64| {
        if ray.origin().x < 2 {
            let next = Ray::new(Point::new(ray.origin().x + 1, 0, 0), *ray.direction(), ray.time());
            Event::Scattered {
                emitted: Point::new(1, 1, 1),
                scatter: ScatterRecord { ray: next, attentuation: Point::new(3, 3, 3) },
            }
        } else {
            Event::Miss
        }
    };
    // 1 + 3 (1 + 3 background)
    let expected = Point::new(1 + 3 * (1 + 3 * 70), 1 + 3 * (1 + 3 * 80), 1 + 3 * (1 + 3 * 100));
    assert_eq!(first_ray().color(BACKGROUND, BLACK, 50, 1, 1000, &cast, &part_by_part, &plus), expected);
    // With two bounces the third ray is not cast and gathers nothing.
    assert_eq!(first_ray().color(BACKGROUND, BLACK, 2, 1, 1000, &cast, &part_by_part, &plus), Point::new(4, 4, 4));
    assert_eq!(first_ray().color(BACKGROUND, BLACK, 1, 1, 1000, &cast, &part_by_part, &plus), Point::new(1, 1, 1));
}

#[test]
fn path_ends_when_the_depth_is_used_up() {
    let rays = std::cell::Cell::new(0);
    let cast = |ray: Ray, t_min: i64, t_max: i64| {
        rays.set(rays.get() + 1);
        mirror_hall(ray, t_min, t_max)
    };
    assert_eq!(first_ray().color(BACKGROUND, BLACK, 50, 1, 1000, &cast, &part_by_part, &plus), BLACK);
    assert_eq!(rays.get(), 50);
}

#[test]
fn light_does_not_scatter() {
    let light = DiffuseLight::new(3);
    assert_eq!(light.emit, 3);
    assert_eq!(light.scatter(), None);
}

#[test]
fn diffuse_surface_scatters_along_the_sum() {
    let m = Lambertian::new(2);
    assert_eq!(m.albedo, 2);
    let sum = Point::new(rank(0.3), rank(-0.7), rank(0.1));
    let colour = Point::new(5, 6, 7);
    let r = m.scatter(8, &hit(), sum, rank(-1e-8), rank(1e-8), colour).unwrap();
    assert_eq!(r, ScatterRecord { ray: Ray::new(Point::new(1, 2, 3), sum, 8), attentuation: colour });
}

#[test]
fn diffuse_surface_falls_back_to_the_normal() {
    let m = Lambertian::new(2);
    let sum = Point::new(rank(1e-9), rank(-1e-9), rank(0.0));
    let r = m.scatter(8, &hit(), sum, rank(-1e-8), rank(1e-8), Point::new(5, 6, 7)).unwrap();
    assert_eq!(*r.ray.direction(), hit().normal);
    // One component that is not small is enough to keep the sum.
    let sum = Point::new(rank(1e-9), rank(-1e-9), rank(1e-8));
    let r = m.scatter(8, &hit(), sum, rank(-1e-8), rank(1e-8), Point::new(5, 6, 7)).unwrap();
    assert_eq!(*r.ray.direction(), sum);
}

#[test]
fn near_zero_is_strict() {
    assert!(near_zero(&Point::new(0, 1, -1), -2, 2));
    assert!(!near_zero(&Point::new(0, 2, -1), -2, 2));
    assert!(!near_zero(&Point::new(-2, 0, 0), -2, 2));
    assert!(!near_zero(&Point::new(0, 0, 5), -2, 2));
    assert!(within(2, 2, 4) && within(4, 2, 4) && !within(1, 2, 4) && !within(5, 2, 4));
}

#[test]
fn metal_scatters_with_its_own_colour() {
    let m = Metal::new(Point::new(7, 6, 5), 3);
    assert_eq!((m.albedo, m.fuzz), (Point::new(7, 6, 5), 3));
    let r = m.scatter(8, &hit(), Point::new(-1, -2, -3)).unwrap();
    assert_eq!(r, ScatterRecord { ray: Ray::new(Point::new(1, 2, 3), Point::new(-1, -2, -3), 8), attentuation: Point::new(7, 6, 5) });
}

#[test]
fn medium_scatters_into_the_direction_drawn() {
    let m = Isotropic::new(4);
    assert_eq!(m.albedo, 4);
    let r = m.scatter(8, &hit(), Point::new(-1, -2, -3), Point::new(9, 9, 9)).unwrap();
    assert_eq!(r, ScatterRecord { ray: Ray::new(Point::new(1, 2, 3), Point::new(-1, -2, -3), 8), attentuation: Point::new(9, 9, 9) });
}

#[test]
fn glass_refracts_at_normal_incidence() {
    // Index 1.5, entering: the ratio is 1 / 1.5 and the sine is 0.
    let glass = Dielectric::new(rank(1.5));
    let ratio = glass.refraction_ratio(Face::Front, rank(1.0 / 1.5));
    assert_eq!(ratio, rank(1.0 / 1.5));
    assert_eq!(glass.refraction_ratio(Face::Back, rank(1.0 / 1.5)), rank(1.5));
    let ratio_sine = (1.0 / 1.5) * 0.0;
    let r0 = ((1.0 - 1.0 / 1.5) / (1.0 + 1.0 / 1.5) as f64).powi(2);
    let reflectance = r0 + (1.0 - r0) * (1.0f64 - 1.0).powi(5);
    assert_eq!(Dielectric::bend(rank(ratio_sine), rank(1.0), rank(reflectance), rank(0.5)), Bend::Refract);
    assert_eq!(Dielectric::bend(rank(ratio_sine), rank(1.0), rank(reflectance), rank(reflectance)), Bend::Refract);
    assert_eq!(Dielectric::bend(rank(ratio_sine), rank(1.0), rank(reflectance), rank(0.01)), Bend::Reflect);
}

#[test]
fn glass_reflects_beyond_the_critical_angle() {
    // Leaving glass of index 1.5 at a grazing angle: 1.5 times a sine near 1.
    let ratio_sine = 1.5 * 0.99;
    for draw in [0.0, 0.25, 0.5, 0.999999, 1.0] {
        for reflectance in [0.0, 0.04, 1.0] {
            assert_eq!(Dielectric::bend(rank(ratio_sine), rank(1.0), rank(reflectance), rank(draw)), Bend::Reflect);
        }
    }
}

#[test]
fn glass_scatters_as_it_bends() {
    let glass = Dielectric::new(rank(1.5));
    let reflected = Point::new(1, 1, 1);
    let refracted = Point::new(2, 2, 2);
    let white = Point::new(rank(1.0), rank(1.0), rank(1.0));
    // Beyond the critical angle, whatever is drawn.
    for draw in [0.0, 0.5, 1.0] {
        let r = glass
            .scatter(8, &hit(), rank(1.2), rank(1.0), rank(0.04), rank(draw), reflected, refracted, white)
            .unwrap();
        assert_eq!(r, ScatterRecord { ray: Ray::new(Point::new(1, 2, 3), reflected, 8), attentuation: white });
    }
    // Below it, by the draw.
    let r = glass
        .scatter(8, &hit(), rank(0.3), rank(1.0), rank(0.04), rank(0.5), reflected, refracted, white)
        .unwrap();
    assert_eq!(r, ScatterRecord { ray: Ray::new(Point::new(1, 2, 3), refracted, 8), attentuation: white });
    let r = glass
        .scatter(8, &hit(), rank(0.3), rank(1.0), rank(0.04), rank(0.01), reflected, refracted, white)
        .unwrap();
    assert_eq!(r, ScatterRecord { ray: Ray::new(Point::new(1, 2, 3), reflected, 8), attentuation: white });
}

#[test]
fn every_ray_of_a_path_is_cast_in_the_same_range() {
    let ranges = std::cell::RefCell::new(Vec::new());
    let cast = |ray: Ray, t_min: i64, t_max: i64| {
        ranges.borrow_mut().push((t_min, t_max));
        mirror_hall(ray, t_min, t_max)
    };
    first_ray().color(BACKGROUND, BLACK, 4, 7, 900, &cast, &part_by_part, &plus);
    assert_eq!(*ranges.borrow(), vec![(7, 900); 4]);
}

#[test]
fn only_a_light_emits() {
    assert_eq!(Material::DiffuseLight(DiffuseLight::new(3)).emitted(), Some(3));
    assert_eq!(Material::Lambertian(Lambertian::new(3)).emitted(), None);
    assert_eq!(Material::Metal(Metal::new(Point::new(1, 2, 3), 0)).emitted(), None);
    assert_eq!(Material::Dielectric(Dielectric::new(5)).emitted(), None);
    assert_eq!(Material::Isotropic(Isotropic::new(3)).emitted(), None);
}

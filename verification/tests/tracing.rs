//! End-to-end behaviour of the ray tracer on concrete scenes: the
//! fixed-point unit is one million, so `1_000_000` is 1.0.

use raytrace::fx::{fx_add, fx_div, fx_mul, fx_pow, fx_sqrt, FX_MAX, SCALE};
use raytrace::light::Light;
use raytrace::material::Material;
use raytrace::rendering::{reflect, refract, Ray};
use raytrace::scene::{background_color, cast_ray, color_to_rgb, render, scene_intersect};
use raytrace::sphere::Sphere;
use raytrace::vec3::Vec3;

fn ivory() -> Material {
    // Pure-diffuse ivory: albedo (0.6, 0.3, 0.1, 0.0), color (0.4, 0.4, 0.3).
    Material::new(
        [600_000, 300_000, 100_000, 0],
        Vec3::new(400_000, 400_000, 300_000),
        50,
        SCALE,
    )
}

fn plain_diffuse() -> Material {
    // Only the diffuse term: albedo (1, 0, 0, 0).
    Material::new([SCALE, 0, 0, 0], Vec3::new(400_000, 400_000, 300_000), 50, SCALE)
}

#[test]
fn ray_at_center_hits_near_root() {
    // Origin outside, direction straight at the center: the hit is owed,
    // at the near root 5 - 1 = 4.
    let s = Sphere::new(Vec3::new(0, 0, -5 * SCALE), SCALE, ivory());
    let t = s.ray_intersect(&Vec3::zeros(), &Vec3::new(0, 0, -SCALE));
    assert_eq!(t, Some(4 * SCALE));
}

#[test]
fn ray_away_from_center_misses() {
    let s = Sphere::new(Vec3::new(0, 0, -5 * SCALE), SCALE, ivory());
    let t = s.ray_intersect(&Vec3::zeros(), &Vec3::new(0, 0, SCALE));
    assert_eq!(t, None);
}

#[test]
fn ray_from_inside_exits_at_far_root() {
    // Origin strictly inside the sphere: never a miss, and the reported
    // distance is the exit point 1.5 ahead.
    let s = Sphere::new(Vec3::new(0, 0, -5 * SCALE), SCALE, ivory());
    let t = s.ray_intersect(&Vec3::new(0, 0, -4_500_000), &Vec3::new(0, 0, -SCALE));
    assert_eq!(t, Some(1_500_000));
}

#[test]
fn reflect_twice_restores_direction() {
    // With an axis-aligned unit normal the fixed-point arithmetic is
    // exact and the involution holds on the executable code.
    let d = Vec3::new(300_000, 400_000, 500_000);
    let n = Vec3::new(0, 0, SCALE);
    let r = reflect(&d, &n);
    assert_eq!(r, Vec3::new(-300_000, -400_000, 500_000));
    assert_eq!(reflect(&r, &n), d);
}

#[test]
fn refract_with_matched_index_keeps_direction() {
    // Index 1.0 on both sides: no bending at all.
    let n = Vec3::new(0, 0, SCALE);
    let head_on = Vec3::new(0, 0, -SCALE);
    assert_eq!(refract(&head_on, &n, SCALE), Some(head_on));
    let oblique = Vec3::new(600_000, 0, -800_000);
    assert_eq!(refract(&oblique, &n, SCALE), Some(oblique));
}

#[test]
fn refract_reports_total_internal_reflection() {
    // Leaving a medium of index 1.5 at a grazing angle: sin exceeds the
    // critical ratio, so there is no refracted ray.
    let n = Vec3::new(0, 0, SCALE);
    let d = Vec3::new(800_000, 0, 600_000);
    assert_eq!(refract(&d, &n, 1_500_000), None);
}

#[test]
fn cast_ray_depth_zero_is_background() {
    let spheres = vec![Sphere::new(Vec3::new(0, 0, -5 * SCALE), SCALE, ivory())];
    let lights = vec![Light::new(Vec3::new(0, 20 * SCALE, 0), 1_500_000)];
    let ray = Ray::new(Vec3::zeros(), Vec3::new(0, 0, -SCALE));
    let c = cast_ray(&ray, &spheres, &lights, 0);
    assert_eq!(c, background_color());
}

#[test]
fn cast_ray_miss_is_background() {
    let spheres = vec![Sphere::new(Vec3::new(0, 0, -5 * SCALE), SCALE, ivory())];
    let lights = vec![Light::new(Vec3::new(0, 20 * SCALE, 0), 1_500_000)];
    let ray = Ray::new(Vec3::zeros(), Vec3::new(0, 0, SCALE));
    let c = cast_ray(&ray, &spheres, &lights, 5);
    assert_eq!(c, background_color());
}

#[test]
fn occluded_light_contributes_nothing() {
    // A blocker sits exactly between the hit point and the light: with a
    // purely diffuse material the pixel goes black, while without the
    // blocker the same light yields energy.
    let target = Sphere::new(Vec3::new(0, 0, -6 * SCALE), SCALE, plain_diffuse());
    let blocker = Sphere::new(Vec3::new(0, 0, -2_500_000), SCALE, plain_diffuse());
    let lights = vec![Light::new(Vec3::zeros(), 1_500_000)];
    let ray = Ray::new(Vec3::zeros(), Vec3::new(0, 0, -SCALE));

    let lit = cast_ray(&ray, &vec![target], &lights, 2);
    assert!(lit.x > 0 && lit.y > 0 && lit.z > 0);

    // The primary ray first hits the blocker itself; aim past it from a
    // side origin so the target is struck, with the blocker shadowing.
    let shadow_scene = vec![target, blocker];
    let hit = scene_intersect(&Ray::new(Vec3::new(0, 0, -4 * SCALE), Vec3::new(0, 0, -SCALE)), &shadow_scene);
    let hit = hit.expect("the target sphere is ahead");
    assert_eq!(hit.position, Vec3::new(0, 0, -5 * SCALE));
    let shaded = cast_ray(
        &Ray::new(Vec3::new(0, 0, -4 * SCALE), Vec3::new(0, 0, -SCALE)),
        &shadow_scene,
        &lights,
        2,
    );
    assert_eq!(shaded, Vec3::new(0, 0, 0));
}

#[test]
fn nearest_hit_wins() {
    let far = Sphere::new(Vec3::new(0, 0, -9 * SCALE), SCALE, ivory());
    let near = Sphere::new(Vec3::new(0, 0, -5 * SCALE), SCALE, plain_diffuse());
    let spheres = vec![far, near];
    let hit = scene_intersect(&Ray::new(Vec3::zeros(), Vec3::new(0, 0, -SCALE)), &spheres)
        .expect("both spheres are ahead");
    assert_eq!(hit.position, Vec3::new(0, 0, -4 * SCALE));
    assert_eq!(hit.material.albedo, [SCALE, 0, 0, 0]);
}

#[test]
fn background_pixel_is_exact() {
    // (0.2, 0.7, 0.8) scaled to 8 bits is exactly (51, 178, 204).
    assert_eq!(color_to_rgb(&background_color()), (51, 178, 204));
}

#[test]
fn overbright_color_is_rescaled_by_its_maximum() {
    // (2.0, 1.0, 0.5) -> divided by 2, scaled by 255 -> (255, 127, 63).
    let c = Vec3::new(2_000_000, 1_000_000, 500_000);
    assert_eq!(color_to_rgb(&c), (255, 127, 63));
}

#[test]
fn negative_channels_clamp_to_zero() {
    let c = Vec3::new(-300_000, 0, SCALE);
    assert_eq!(color_to_rgb(&c), (0, 0, 255));
}

#[test]
fn single_sphere_frame() {
    // One ivory sphere dead ahead, one off-axis light, fov 90 degrees
    // (tan of half the fov is 1.0), a 3x1 frame: the side pixels miss
    // and are exactly the background; the center pixel's color lies
    // closer to the material's diffuse color than to the background.
    let spheres = vec![Sphere::new(Vec3::new(0, 0, -5 * SCALE), SCALE, ivory())];
    let lights = vec![Light::new(Vec3::new(0, 5 * SCALE, 0), 1_500_000)];
    let fb = render(&spheres, &lights, 3, 1, SCALE, 5);
    assert_eq!(fb.len(), 3);
    assert_eq!(fb[0], (51, 178, 204));
    assert_eq!(fb[2], (51, 178, 204));

    let (r, g, b) = fb[1];
    let diffuse_rgb = (102i64, 102i64, 76i64);
    let background_rgb = (51i64, 178i64, 204i64);
    let d_diffuse = (r as i64 - diffuse_rgb.0).pow(2) + (g as i64 - diffuse_rgb.1).pow(2)
        + (b as i64 - diffuse_rgb.2).pow(2);
    let d_background = (r as i64 - background_rgb.0).pow(2) + (g as i64 - background_rgb.1).pow(2)
        + (b as i64 - background_rgb.2).pow(2);
    assert!(d_diffuse < d_background);
}

#[test]
fn scalar_arithmetic_is_exact_and_saturating() {
    assert_eq!(fx_mul(1_500_000, 2_000_000), 3_000_000);
    assert_eq!(fx_mul(-1_500_000, 2_000_000), -3_000_000);
    assert_eq!(fx_div(3_000_000, 2_000_000), 1_500_000);
    assert_eq!(fx_sqrt(4_000_000), 2_000_000);
    assert_eq!(fx_add(FX_MAX, FX_MAX), FX_MAX);
    assert_eq!(fx_mul(FX_MAX, FX_MAX), FX_MAX);
    assert_eq!(fx_pow(500_000, 2), 250_000);
    assert_eq!(fx_pow(2_000_000, 10), 1_024_000_000);
}

#[test]
fn normalize_makes_unit_vectors() {
    let v = Vec3::new(3_000_000, 4_000_000, 0);
    assert_eq!(v.norm(), 5_000_000);
    assert_eq!(v.normalize(), Vec3::new(600_000, 800_000, 0));
    // The zero vector stays zero rather than dividing by zero.
    assert_eq!(Vec3::zeros().normalize(), Vec3::zeros());
}

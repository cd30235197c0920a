//! The scene: nearest-hit intersection over the sphere collection, the
//! recursive shader, color finalization and the raster driver.

use vstd::prelude::*;
use crate::fx::{
    fx_add, fx_add_spec, fx_clamp, fx_clamp_spec, fx_max, fx_max_spec, fx_mul, fx_mul_spec,
    fx_pow, fx_pow_spec, fx_div, fx_div_spec, fx_sub, fx_sub_spec, in_range, SCALE,
};
use crate::light::{light_wf, Light};
use crate::rendering::{
    hit_wf, ray_wf, reflect, refract, spec_get_surface, spec_reflect, spec_refract, Ray,
    RaycastHit,
};
use crate::sphere::{sphere_hit, sphere_hit_t, spec_surface_normal, sphere_wf, Sphere};
use crate::vec3::{
    v_add_spec, v_dot_spec, v_neg_spec, v_norm_spec, v_normalize_spec, v_smul_spec, v_sub_spec,
    v_wf, Vec3, V3,
};

verus! {

/// The fixed sky color returned for every ray that hits nothing or whose
/// depth budget ran out: linear RGB (0.2, 0.7, 0.8).
pub open spec fn spec_background() -> V3 {
    V3 { x: 200_000, y: 700_000, z: 800_000 }
}

pub fn background_color() -> (r: Vec3)
    ensures
        r@ == spec_background(),
        v_wf(r@),
{
    Vec3 { x: 200_000, y: 700_000, z: 800_000 }
}

pub open spec fn spheres_wf(s: Seq<Sphere>) -> bool {
    forall|i: int| 0 <= i < s.len() ==> sphere_wf(#[trigger] s[i])
}

pub open spec fn lights_wf(l: Seq<Light>) -> bool {
    forall|i: int| 0 <= i < l.len() ==> light_wf(#[trigger] l[i])
}

/// The nearest hit among the first `n` spheres: the index and distance of
/// the sphere hit at the smallest distance, the earliest such sphere when
/// two are hit equally far away.
pub open spec fn spec_nearest_prefix(
    spheres: Seq<Sphere>,
    origin: V3,
    dir: V3,
    n: int,
) -> Option<(int, int)>
    decreases n,
{
    if n <= 0 {
        None
    } else {
        let prev = spec_nearest_prefix(spheres, origin, dir, n - 1);
        if sphere_hit(spheres[n - 1], origin, dir) {
            let t = sphere_hit_t(spheres[n - 1], origin, dir);
            match prev {
                None => Some((n - 1, t)),
                Some(p) => if p.1 <= t {
                    prev
                } else {
                    Some((n - 1, t))
                },
            }
        } else {
            prev
        }
    }
}

/// The nearest hit over the whole collection.
pub open spec fn spec_nearest(spheres: Seq<Sphere>, origin: V3, dir: V3) -> Option<(int, int)> {
    spec_nearest_prefix(spheres, origin, dir, spheres.len() as int)
}

/// What the nearest-hit selection promises: a `None` means no sphere is
/// hit at all, and a `Some((i, t))` is a real hit at the smallest
/// distance among all hits.
pub proof fn lemma_nearest_prefix_props(spheres: Seq<Sphere>, origin: V3, dir: V3, n: int)
    requires
        0 <= n <= spheres.len(),
    ensures
        spec_nearest_prefix(spheres, origin, dir, n) is None ==> forall|k: int|
            0 <= k < n ==> !sphere_hit(#[trigger] spheres[k], origin, dir),
        spec_nearest_prefix(spheres, origin, dir, n) matches Some(p) ==> {
            &&& 0 <= p.0 < n
            &&& sphere_hit(spheres[p.0], origin, dir)
            &&& p.1 == sphere_hit_t(spheres[p.0], origin, dir)
            &&& forall|k: int|
                0 <= k < n && sphere_hit(#[trigger] spheres[k], origin, dir) ==> p.1
                    <= sphere_hit_t(spheres[k], origin, dir)
        },
    decreases n,
{
    if n > 0 {
        lemma_nearest_prefix_props(spheres, origin, dir, n - 1);
    }
}

/// The nearest hit of `ray` against the scene, or `None` when the ray
/// hits nothing. On a hit, the report carries the hit sphere's material,
/// the point `origin + direction * t`, and the outward unit normal
/// there.
pub fn scene_intersect(ray: &Ray, spheres: &Vec<Sphere>) -> (r: Option<RaycastHit>)
    requires
        ray_wf(*ray),
        spheres_wf(spheres@),
    ensures
        r is Some <==> spec_nearest(spheres@, ray.origin@, ray.direction@) is Some,
        r matches Some(hit) ==> {
            let p = spec_nearest(spheres@, ray.origin@, ray.direction@)->0;
            &&& hit.material == spheres@[p.0].material
            &&& hit.position@ == v_add_spec(ray.origin@, v_smul_spec(ray.direction@, p.1))
            &&& hit.normal@ == spec_surface_normal(spheres@[p.0], hit.position@)
            &&& hit_wf(hit)
        },
        r is None ==> forall|k: int|
            0 <= k < spheres@.len() ==> !sphere_hit(#[trigger] spheres@[k], ray.origin@, ray.direction@),
        r is Some ==> {
            let p = spec_nearest(spheres@, ray.origin@, ray.direction@)->0;
            &&& 0 <= p.0 < spheres@.len()
            &&& sphere_hit(spheres@[p.0], ray.origin@, ray.direction@)
            &&& p.1 == sphere_hit_t(spheres@[p.0], ray.origin@, ray.direction@)
            &&& forall|k: int|
                0 <= k < spheres@.len() && sphere_hit(
                    #[trigger] spheres@[k],
                    ray.origin@,
                    ray.direction@,
                ) ==> p.1 <= sphere_hit_t(spheres@[k], ray.origin@, ray.direction@)
        },
{
    proof {
        lemma_nearest_prefix_props(spheres@, ray.origin@, ray.direction@, spheres@.len() as int);
    }
    let mut found: bool = false;
    let mut best_i: usize = 0;
    let mut best_t: i64 = 0;
    let mut j: usize = 0;
    while j < spheres.len()
        invariant
            j <= spheres@.len(),
            ray_wf(*ray),
            spheres_wf(spheres@),
            !found ==> spec_nearest_prefix(spheres@, ray.origin@, ray.direction@, j as int)
                is None,
            found ==> spec_nearest_prefix(spheres@, ray.origin@, ray.direction@, j as int)
                == Some((best_i as int, best_t as int)),
            found ==> best_i < j,
            found ==> 0 <= best_t && in_range(best_t as int),
        decreases spheres@.len() - j,
    {
        match spheres[j].ray_intersect(&ray.origin, &ray.direction) {
            Some(t) => {
                if !found || t < best_t {
                    found = true;
                    best_i = j;
                    best_t = t;
                }
            },
            None => {},
        }
        j = j + 1;
    }
    if found {
        let s = &spheres[best_i];
        let hit_point = ray.origin.add(&ray.direction.smul(best_t));
        let normal = s.surface_normal(&hit_point);
        Some(RaycastHit { material: s.material(), position: hit_point, normal })
    } else {
        None
    }
}

/// Whether a light is occluded: the shadow ray from the offset origin
/// toward the light hits something strictly closer than the light.
pub open spec fn spec_shadowed(
    spheres: Seq<Sphere>,
    shadow_origin: V3,
    light_dir: V3,
    light_dist: int,
) -> bool {
    match spec_nearest(spheres, shadow_origin, light_dir) {
        None => false,
        Some(p) => {
            let shadow_pos = v_add_spec(shadow_origin, v_smul_spec(light_dir, p.1));
            v_norm_spec(v_sub_spec(shadow_pos, shadow_origin)) < light_dist
        },
    }
}

/// The diffuse and specular intensity gathered from the first `n` lights
/// at a hit point. A light whose straight-line path to the point is
/// occluded contributes exactly nothing; every other light adds
/// `intensity * max(0, light_dir . normal)` diffuse energy and
/// `intensity * max(0, reflect(-light_dir, normal) . ray_dir) ^ exponent`
/// specular energy.
pub open spec fn spec_lighting(
    spheres: Seq<Sphere>,
    lights: Seq<Light>,
    n: int,
    position: V3,
    normal: V3,
    ray_dir: V3,
    exponent: u32,
) -> (int, int)
    decreases n,
{
    if n <= 0 {
        (0, 0)
    } else {
        let prev = spec_lighting(spheres, lights, n - 1, position, normal, ray_dir, exponent);
        let light = lights[n - 1];
        let lvec = v_sub_spec(light.position@, position);
        let light_dir = v_normalize_spec(lvec);
        let light_dist = v_norm_spec(lvec);
        let shadow_origin = spec_get_surface(position, normal, light_dir);
        if spec_shadowed(spheres, shadow_origin, light_dir, light_dist) {
            prev
        } else {
            let diffuse = fx_mul_spec(
                light.intensity as int,
                fx_max_spec(0, v_dot_spec(light_dir, normal)),
            );
            let specular = fx_mul_spec(
                fx_pow_spec(
                    fx_max_spec(0, v_dot_spec(spec_reflect(v_neg_spec(light_dir), normal), ray_dir)),
                    exponent as nat,
                ),
                light.intensity as int,
            );
            (fx_add_spec(prev.0, diffuse), fx_add_spec(prev.1, specular))
        }
    }
}

pub open spec fn spec_white() -> V3 {
    V3 { x: SCALE as int, y: SCALE as int, z: SCALE as int }
}

/// The radiance estimate for one ray: the background when the depth
/// budget is spent or nothing is hit; otherwise the sum of the diffuse,
/// specular, mirror-reflected and refracted contributions at the nearest
/// hit, each scaled by its albedo weight. Total internal reflection
/// contributes zero rather than following a degenerate direction.
pub open spec fn spec_cast_ray(
    spheres: Seq<Sphere>,
    lights: Seq<Light>,
    origin: V3,
    dir: V3,
    depth: nat,
) -> V3
    decreases depth,
{
    if depth == 0 {
        spec_background()
    } else {
        match spec_nearest(spheres, origin, dir) {
            None => spec_background(),
            Some(p) => {
                let position = v_add_spec(origin, v_smul_spec(dir, p.1));
                let normal = spec_surface_normal(spheres[p.0], position);
                let m = spheres[p.0].material;
                let reflect_dir = v_neg_spec(v_normalize_spec(spec_reflect(dir, normal)));
                let reflect_origin = spec_get_surface(position, normal, reflect_dir);
                let reflect_color = spec_cast_ray(
                    spheres,
                    lights,
                    reflect_origin,
                    reflect_dir,
                    (depth - 1) as nat,
                );
                let refract_color = match spec_refract(dir, normal, m.refractive_index as int) {
                    None => V3 { x: 0, y: 0, z: 0 },
                    Some(rd) => {
                        let refract_dir = v_normalize_spec(rd);
                        let refract_origin = spec_get_surface(position, normal, refract_dir);
                        spec_cast_ray(spheres, lights, refract_origin, refract_dir, (depth - 1) as nat)
                    },
                };
                let lit = spec_lighting(
                    spheres,
                    lights,
                    lights.len() as int,
                    position,
                    normal,
                    dir,
                    m.specular_exponent,
                );
                v_add_spec(
                    v_add_spec(
                        v_add_spec(
                            v_smul_spec(v_smul_spec(m.diffuse_color@, lit.0), m.albedo[0] as int),
                            v_smul_spec(v_smul_spec(spec_white(), lit.1), m.albedo[1] as int),
                        ),
                        v_smul_spec(reflect_color, m.albedo[2] as int),
                    ),
                    v_smul_spec(refract_color, m.albedo[3] as int),
                )
            },
        }
    }
}

/// Casts `ray` into the scene and returns its linear RGB radiance, with
/// `depth` recursion levels left for mirror and refraction rays. At
/// `depth == 0` the background color comes back whatever the scene holds.
#[verifier::rlimit(100)]
pub fn cast_ray(ray: &Ray, spheres: &Vec<Sphere>, lights: &Vec<Light>, depth: u32) -> (r: Vec3)
    requires
        ray_wf(*ray),
        spheres_wf(spheres@),
        lights_wf(lights@),
    ensures
        r@ == spec_cast_ray(spheres@, lights@, ray.origin@, ray.direction@, depth as nat),
        v_wf(r@),
        depth == 0 ==> r@ == spec_background(),
    decreases depth,
{
    if depth == 0 {
        return background_color();
    }
    match scene_intersect(ray, spheres) {
        None => background_color(),
        Some(hit) => {
            let reflect_dir = reflect(&ray.direction, &hit.normal).normalize().neg();
            let reflect_origin = hit.get_surface(&reflect_dir);
            let reflect_ray = Ray::new(reflect_origin, reflect_dir);
            let reflect_color = cast_ray(&reflect_ray, spheres, lights, depth - 1);
            let refract_color = match refract(
                &ray.direction,
                &hit.normal,
                hit.material.refractive_index,
            ) {
                None => Vec3::zeros(),
                Some(rd) => {
                    let refract_dir = rd.normalize();
                    let refract_origin = hit.get_surface(&refract_dir);
                    let refract_ray = Ray::new(refract_origin, refract_dir);
                    cast_ray(&refract_ray, spheres, lights, depth - 1)
                },
            };
            let mut diffuse_light_intensity: i64 = 0;
            let mut specular_light_intensity: i64 = 0;
            let mut li: usize = 0;
            while li < lights.len()
                invariant
                    li <= lights@.len(),
                    spheres_wf(spheres@),
                    lights_wf(lights@),
                    ray_wf(*ray),
                    hit_wf(hit),
                    in_range(diffuse_light_intensity as int),
                    in_range(specular_light_intensity as int),
                    (diffuse_light_intensity as int, specular_light_intensity as int)
                        == spec_lighting(
                        spheres@,
                        lights@,
                        li as int,
                        hit.position@,
                        hit.normal@,
                        ray.direction@,
                        hit.material.specular_exponent,
                    ),
                decreases lights@.len() - li,
            {
                let light = lights[li];
                let lvec = light.position.sub(&hit.position);
                let light_dir = lvec.normalize();
                let light_dist = lvec.norm();
                let shadow_origin = hit.get_surface(&light_dir);
                let shadow_ray = Ray::new(shadow_origin, light_dir);
                let mut occluded: bool = false;
                match scene_intersect(&shadow_ray, spheres) {
                    Some(shadow_hit) => {
                        if shadow_hit.position.sub(&shadow_origin).norm() < light_dist {
                            occluded = true;
                        }
                    },
                    None => {},
                }
                if !occluded {
                    let diffuse = fx_mul(
                        light.intensity,
                        fx_max(0, light_dir.dot(&hit.normal)),
                    );
                    let specular = fx_mul(
                        fx_pow(
                            fx_max(0, reflect(&light_dir.neg(), &hit.normal).dot(&ray.direction)),
                            hit.material.specular_exponent,
                        ),
                        light.intensity,
                    );
                    diffuse_light_intensity = fx_add(diffuse_light_intensity, diffuse);
                    specular_light_intensity = fx_add(specular_light_intensity, specular);
                }
                li = li + 1;
            }
            let white = Vec3 { x: SCALE, y: SCALE, z: SCALE };
            hit.material.diffuse_color.smul(diffuse_light_intensity).smul(hit.material.albedo[0])
                .add(&white.smul(specular_light_intensity).smul(hit.material.albedo[1]))
                .add(&reflect_color.smul(hit.material.albedo[2]))
                .add(&refract_color.smul(hit.material.albedo[3]))
        },
    }
}

/// The fixed-point value of 255.0, the 8-bit channel scale.
pub const CHANNEL_SCALE: i64 = 255_000_000;

/// 8-bit color finalization: when the largest channel exceeds 1.0 the
/// whole triple is rescaled by its reciprocal (hue-preserving brightness
/// compression); every channel is then clamped to [0, 1] and scaled to
/// 0..=255, truncating.
pub open spec fn spec_color_to_rgb(c: V3) -> (int, int, int) {
    let mx = fx_max_spec(c.x, fx_max_spec(c.y, c.z));
    let scaled = if mx > SCALE as int {
        V3 {
            x: fx_mul_spec(fx_div_spec(c.x, mx), CHANNEL_SCALE as int),
            y: fx_mul_spec(fx_div_spec(c.y, mx), CHANNEL_SCALE as int),
            z: fx_mul_spec(fx_div_spec(c.z, mx), CHANNEL_SCALE as int),
        }
    } else {
        V3 {
            x: fx_mul_spec(c.x, CHANNEL_SCALE as int),
            y: fx_mul_spec(c.y, CHANNEL_SCALE as int),
            z: fx_mul_spec(c.z, CHANNEL_SCALE as int),
        }
    };
    (
        fx_clamp_spec(scaled.x, 0, CHANNEL_SCALE as int) / (SCALE as int),
        fx_clamp_spec(scaled.y, 0, CHANNEL_SCALE as int) / (SCALE as int),
        fx_clamp_spec(scaled.z, 0, CHANNEL_SCALE as int) / (SCALE as int),
    )
}

pub fn color_to_rgb(color: &Vec3) -> (r: (u8, u8, u8))
    requires
        v_wf(color@),
    ensures
        r.0 == spec_color_to_rgb(color@).0,
        r.1 == spec_color_to_rgb(color@).1,
        r.2 == spec_color_to_rgb(color@).2,
{
    let mx = fx_max(color.x, fx_max(color.y, color.z));
    let scaled: Vec3 = if mx > SCALE {
        Vec3 {
            x: fx_mul(fx_div(color.x, mx), CHANNEL_SCALE),
            y: fx_mul(fx_div(color.y, mx), CHANNEL_SCALE),
            z: fx_mul(fx_div(color.z, mx), CHANNEL_SCALE),
        }
    } else {
        Vec3 {
            x: fx_mul(color.x, CHANNEL_SCALE),
            y: fx_mul(color.y, CHANNEL_SCALE),
            z: fx_mul(color.z, CHANNEL_SCALE),
        }
    };
    let cx = fx_clamp(scaled.x, 0, CHANNEL_SCALE);
    let cy = fx_clamp(scaled.y, 0, CHANNEL_SCALE);
    let cz = fx_clamp(scaled.z, 0, CHANNEL_SCALE);
    (
        ((cx as u64) / (SCALE as u64)) as u8,
        ((cy as u64) / (SCALE as u64)) as u8,
        ((cz as u64) / (SCALE as u64)) as u8,
    )
}

/// The primary-ray direction through pixel (x, y) of a w-by-h raster:
/// the pinhole camera sits at the origin and looks along -z, and
/// `fov_tan` is the fixed-point tangent of half the vertical field of
/// view.
pub open spec fn spec_pixel_dir(x: int, y: int, w: int, h: int, fov_tan: int) -> V3 {
    let sx = fx_div_spec(
        fx_mul_spec(
            fx_mul_spec(
                fx_sub_spec(fx_div_spec((2 * x + 1) * SCALE, w * SCALE), SCALE as int),
                fov_tan,
            ),
            w * SCALE,
        ),
        h * SCALE,
    );
    let sy = -fx_mul_spec(
        fx_sub_spec(fx_div_spec((2 * y + 1) * SCALE, h * SCALE), SCALE as int),
        fov_tan,
    );
    v_normalize_spec(V3 { x: sx, y: sy, z: -(SCALE as int) })
}

/// The finalized 8-bit color of pixel (x, y).
pub open spec fn spec_render_pixel(
    spheres: Seq<Sphere>,
    lights: Seq<Light>,
    x: int,
    y: int,
    w: int,
    h: int,
    fov_tan: int,
    depth: nat,
) -> (int, int, int) {
    spec_color_to_rgb(
        spec_cast_ray(
            spheres,
            lights,
            V3 { x: 0, y: 0, z: 0 },
            spec_pixel_dir(x, y, w, h, fov_tan),
            depth,
        ),
    )
}

pub fn render_pixel(
    spheres: &Vec<Sphere>,
    lights: &Vec<Light>,
    x: usize,
    y: usize,
    width: usize,
    height: usize,
    fov_tan: i64,
    depth: u32,
) -> (r: (u8, u8, u8))
    requires
        spheres_wf(spheres@),
        lights_wf(lights@),
        x < width <= 10_000,
        y < height <= 10_000,
        in_range(fov_tan as int),
    ensures
        r.0 == spec_render_pixel(
            spheres@,
            lights@,
            x as int,
            y as int,
            width as int,
            height as int,
            fov_tan as int,
            depth as nat,
        ).0,
        r.1 == spec_render_pixel(
            spheres@,
            lights@,
            x as int,
            y as int,
            width as int,
            height as int,
            fov_tan as int,
            depth as nat,
        ).1,
        r.2 == spec_render_pixel(
            spheres@,
            lights@,
            x as int,
            y as int,
            width as int,
            height as int,
            fov_tan as int,
            depth as nat,
        ).2,
{
    let xs: i64 = (2 * (x as i64) + 1) * SCALE;
    let ys: i64 = (2 * (y as i64) + 1) * SCALE;
    let ws: i64 = (width as i64) * SCALE;
    let hs: i64 = (height as i64) * SCALE;
    let sx = fx_div(fx_mul(fx_mul(fx_sub(fx_div(xs, ws), SCALE), fov_tan), ws), hs);
    let sy = -fx_mul(fx_sub(fx_div(ys, hs), SCALE), fov_tan);
    let dir = Vec3 { x: sx, y: sy, z: -SCALE }.normalize();
    let ray = Ray::new(Vec3::zeros(), dir);
    let color = cast_ray(&ray, spheres, lights, depth);
    color_to_rgb(&color)
}

/// Whether the pixel stored at flat index `i` of a w-wide raster holds
/// the color the model prescribes for it.
pub open spec fn pixel_ok(
    spheres: Seq<Sphere>,
    lights: Seq<Light>,
    w: int,
    h: int,
    fov_tan: int,
    depth: nat,
    i: int,
    pix: (u8, u8, u8),
) -> bool {
    let p = spec_render_pixel(spheres, lights, i % w, i / w, w, h, fov_tan, depth);
    pix.0 == p.0 && pix.1 == p.1 && pix.2 == p.2
}

/// Renders the whole frame: one finalized pixel per raster position, in
/// row-major order, top row first, left to right within a row.
pub fn render(
    spheres: &Vec<Sphere>,
    lights: &Vec<Light>,
    width: usize,
    height: usize,
    fov_tan: i64,
    depth: u32,
) -> (fb: Vec<(u8, u8, u8)>)
    requires
        spheres_wf(spheres@),
        lights_wf(lights@),
        1 <= width <= 10_000,
        1 <= height <= 10_000,
        in_range(fov_tan as int),
    ensures
        fb@.len() == width * height,
        forall|i: int|
            0 <= i < fb@.len() ==> pixel_ok(
                spheres@,
                lights@,
                width as int,
                height as int,
                fov_tan as int,
                depth as nat,
                i,
                #[trigger] fb@[i],
            ),
{
    let mut fb: Vec<(u8, u8, u8)> = Vec::new();
    let mut y: usize = 0;
    while y < height
        invariant
            y <= height,
            spheres_wf(spheres@),
            lights_wf(lights@),
            1 <= width <= 10_000,
            1 <= height <= 10_000,
            in_range(fov_tan as int),
            fb@.len() == y * width,
            forall|i: int|
                0 <= i < fb@.len() ==> pixel_ok(
                    spheres@,
                    lights@,
                    width as int,
                    height as int,
                    fov_tan as int,
                    depth as nat,
                    i,
                    #[trigger] fb@[i],
                ),
        decreases height - y,
    {
        let mut x: usize = 0;
        while x < width
            invariant
                x <= width,
                y < height,
                spheres_wf(spheres@),
                lights_wf(lights@),
                1 <= width <= 10_000,
                1 <= height <= 10_000,
                in_range(fov_tan as int),
                fb@.len() == y * width + x,
                forall|i: int|
                    0 <= i < fb@.len() ==> pixel_ok(
                        spheres@,
                        lights@,
                        width as int,
                        height as int,
                        fov_tan as int,
                        depth as nat,
                        i,
                        #[trigger] fb@[i],
                    ),
            decreases width - x,
        {
            let pix = render_pixel(spheres, lights, x, y, width, height, fov_tan, depth);
            proof {
                vstd::arithmetic::div_mod::lemma_fundamental_div_mod_converse(
                    (y * width + x) as int,
                    width as int,
                    y as int,
                    x as int,
                );
            }
            fb.push(pix);
            x = x + 1;
        }
        proof {
            assert((y + 1) * width == y * width + width) by (nonlinear_arith);
        }
        y = y + 1;
    }
    proof {
        assert(height * width == width * height) by (nonlinear_arith);
    }
    fb
}

} // verus!

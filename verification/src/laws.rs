//! The laws of the shading algebra: properties that hold of the model as
//! a whole, stated over the same spec functions the executable functions
//! are proved against.

use vstd::prelude::*;
use crate::fx::{
    fx_clamp_spec, fx_div_spec, fx_mul_spec, fx_sub_spec, in_range,
    lemma_fx_square_nonneg, lemma_sqrt_floor_bounds, lemma_sqrt_floor_unique, mag, sqrt_floor,
    tdiv, FX_MAX, SCALE,
};
use crate::light::Light;
use crate::rendering::{spec_get_surface, spec_refract};
use crate::scene::{
    spec_background, spec_cast_ray, spec_lighting, spec_shadowed,
};
use crate::sphere::{
    isect_d2, isect_r2, isect_t0, isect_t1, isect_tca, isect_thc, sphere_hit, sphere_hit_t,
    sphere_wf, Sphere,
};
use crate::vec3::{
    lemma_v_dot_self_nonneg, v_add_spec, v_dot_spec, v_norm_spec, v_normalize_spec, v_smul_spec,
    v_sub_spec, v_wf, V3,
};

verus! {

/// A spent depth budget means the background color, whatever the scene,
/// the lights or the ray hold.
pub proof fn lemma_cast_ray_depth_zero(
    spheres: Seq<Sphere>,
    lights: Seq<Light>,
    origin: V3,
    dir: V3,
)
    ensures
        spec_cast_ray(spheres, lights, origin, dir, 0) == spec_background(),
{
}

/// An occluded light contributes nothing: when the shadow ray of the
/// last counted light hits an occluder strictly closer than that light,
/// both the diffuse and the specular energy stay exactly what the other
/// lights alone gave.
pub proof fn lemma_shadowed_light_adds_nothing(
    spheres: Seq<Sphere>,
    lights: Seq<Light>,
    n: int,
    position: V3,
    normal: V3,
    ray_dir: V3,
    exponent: u32,
)
    requires
        1 <= n <= lights.len(),
        ({
            let lvec = v_sub_spec(lights[n - 1].position@, position);
            let light_dir = v_normalize_spec(lvec);
            spec_shadowed(
                spheres,
                spec_get_surface(position, normal, light_dir),
                light_dir,
                v_norm_spec(lvec),
            )
        }),
    ensures
        spec_lighting(spheres, lights, n, position, normal, ray_dir, exponent) == spec_lighting(
            spheres,
            lights,
            n - 1,
            position,
            normal,
            ray_dir,
            exponent,
        ),
{
}

/// Dot product, scaling and difference over unbounded integers: the
/// exact counterparts of the fixed-point vector operations, used to
/// state the algebraic laws free of truncation.
pub open spec fn exact_dot(a: V3, b: V3) -> int {
    a.x * b.x + a.y * b.y + a.z * b.z
}

pub open spec fn exact_smul(a: V3, k: int) -> V3 {
    V3 { x: a.x * k, y: a.y * k, z: a.z * k }
}

pub open spec fn exact_sub(a: V3, b: V3) -> V3 {
    V3 { x: a.x - b.x, y: a.y - b.y, z: a.z - b.z }
}

/// The mirror formula with the unit-length requirement kept symbolic:
/// for a normal of squared length `s` this is the reflection of `d`
/// scaled by `s`, so for a unit normal (`s == 1`) it is
/// `2 (d . n) n - d` itself.
pub open spec fn exact_reflect(d: V3, n: V3, s: int) -> V3 {
    exact_sub(exact_smul(n, 2 * exact_dot(d, n)), exact_smul(d, s))
}

#[verifier::nonlinear]
proof fn lemma_mul_comm(a: int, b: int)
    ensures
        a * b == b * a,
{
}

#[verifier::nonlinear]
proof fn lemma_mul_dist3(x: int, a: int, b: int, c: int)
    ensures
        x * (a + b + c) == x * a + x * b + x * c,
{
}

#[verifier::nonlinear]
proof fn lemma_reflect_dot_comp(ni: int, di: int, s: int, t: int)
    ensures
        (ni * (2 * t) - di * s) * ni == 2 * (t * (ni * ni)) - s * (di * ni),
{
}

proof fn lemma_poly_reflect_dot(
    nx: int,
    ny: int,
    nz: int,
    dx: int,
    dy: int,
    dz: int,
    s: int,
    t: int,
)
    requires
        s == nx * nx + ny * ny + nz * nz,
        t == dx * nx + dy * ny + dz * nz,
    ensures
        (nx * (2 * t) - dx * s) * nx + (ny * (2 * t) - dy * s) * ny + (nz * (2 * t) - dz * s) * nz
            == s * t,
{
    lemma_reflect_dot_comp(nx, dx, s, t);
    lemma_reflect_dot_comp(ny, dy, s, t);
    lemma_reflect_dot_comp(nz, dz, s, t);
    lemma_mul_dist3(t, nx * nx, ny * ny, nz * nz);
    lemma_mul_dist3(s, dx * nx, dy * ny, dz * nz);
    lemma_mul_comm(t, s);
}

#[verifier::nonlinear]
proof fn lemma_poly_reflect_comp(ni: int, di: int, s: int, t: int, u: int)
    requires
        u == s * t,
    ensures
        ni * (2 * u) - (ni * (2 * t) - di * s) * s == di * (s * s),
{
}

/// Reflecting twice about one normal restores the direction: with
/// `s = n . n`, two applications of the scaled mirror formula yield `d`
/// scaled by `s²`, and nothing else.
pub proof fn lemma_reflect_involution(d: V3, n: V3)
    ensures
        exact_reflect(exact_reflect(d, n, exact_dot(n, n)), n, exact_dot(n, n)) == exact_smul(
            d,
            exact_dot(n, n) * exact_dot(n, n),
        ),
{
    let s = exact_dot(n, n);
    let t = exact_dot(d, n);
    let r = exact_reflect(d, n, s);
    let u = exact_dot(r, n);
    assert(u == (n.x * (2 * t) - d.x * s) * n.x + (n.y * (2 * t) - d.y * s) * n.y + (n.z * (2 * t)
        - d.z * s) * n.z);
    lemma_poly_reflect_dot(n.x, n.y, n.z, d.x, d.y, d.z, s, t);
    let r2 = exact_reflect(r, n, s);
    assert(r2.x == n.x * (2 * u) - (n.x * (2 * t) - d.x * s) * s);
    assert(r2.y == n.y * (2 * u) - (n.y * (2 * t) - d.y * s) * s);
    assert(r2.z == n.z * (2 * u) - (n.z * (2 * t) - d.z * s) * s);
    lemma_poly_reflect_comp(n.x, d.x, s, t, u);
    lemma_poly_reflect_comp(n.y, d.y, s, t, u);
    lemma_poly_reflect_comp(n.z, d.z, s, t, u);
}

/// The involution for a unit normal: two reflections are the identity.
pub proof fn lemma_reflect_involution_unit(d: V3, n: V3)
    requires
        exact_dot(n, n) == 1,
    ensures
        exact_reflect(exact_reflect(d, n, 1), n, 1) == d,
{
    lemma_reflect_involution(d, n);
    assert(exact_smul(d, 1) == d);
}

/// The exact geometric hit predicate, written without square roots: the
/// ray `origin + t * dir` (for real `t >= 0`, `dir` nonzero) meets the
/// closed ball of squared radius `r_sq` around `center` exactly when the
/// quadratic `|origin + t dir - center|² = r_sq` has a non-negative real
/// root: its discriminant is non-negative, and its far root is, which
/// for `dir . dir > 0` means `dir . oc >= 0` or the origin already lies
/// in the ball.
pub open spec fn exact_ray_hits_sphere(origin: V3, dir: V3, center: V3, r_sq: int) -> bool {
    let oc = exact_sub(center, origin);
    let b = exact_dot(dir, oc);
    let disc = b * b - exact_dot(dir, dir) * (exact_dot(oc, oc) - r_sq);
    disc >= 0 && (b >= 0 || exact_dot(oc, oc) <= r_sq)
}

/// A ray that starts outside a sphere and points straight at its center
/// always hits, and already on the near side: the near root of the
/// quadratic is non-negative too.
#[verifier::nonlinear]
proof fn lemma_scaled_dot_comp(oi: int, k: int)
    ensures
        oi * k * oi == k * (oi * oi),
        oi * k * (oi * k) == k * k * (oi * oi),
{
}

proof fn lemma_poly_scaled_dot(ox: int, oy: int, oz: int, k: int, q: int)
    requires
        q == ox * ox + oy * oy + oz * oz,
    ensures
        ox * k * ox + oy * k * oy + oz * k * oz == k * q,
        ox * k * (ox * k) + oy * k * (oy * k) + oz * k * (oz * k) == k * k * q,
{
    lemma_scaled_dot_comp(ox, k);
    lemma_scaled_dot_comp(oy, k);
    lemma_scaled_dot_comp(oz, k);
    lemma_mul_dist3(k, ox * ox, oy * oy, oz * oz);
    lemma_mul_dist3(k * k, ox * ox, oy * oy, oz * oz);
}

#[verifier::nonlinear]
proof fn lemma_poly_toward(b: int, dd: int, q: int, r_sq: int, k: int)
    requires
        b == k * q,
        dd == k * k * q,
        q > r_sq,
        r_sq > 0,
        k > 0,
    ensures
        b > 0,
        b * b - dd * (q - r_sq) == k * k * q * r_sq,
        k * k * q * r_sq >= 0,
        b * b >= dd * (q - r_sq),
{
}

pub proof fn lemma_ray_toward_center_hits(origin: V3, center: V3, r_sq: int, k: int)
    requires
        0 < r_sq,
        0 < k,
        exact_dot(exact_sub(center, origin), exact_sub(center, origin)) > r_sq,
    ensures
        exact_ray_hits_sphere(origin, exact_smul(exact_sub(center, origin), k), center, r_sq),
        ({
            let oc = exact_sub(center, origin);
            let d = exact_smul(oc, k);
            let b = exact_dot(d, oc);
            b > 0 && b * b >= exact_dot(d, d) * (exact_dot(oc, oc) - r_sq)
        }),
{
    let oc = exact_sub(center, origin);
    let q = exact_dot(oc, oc);
    let d = exact_smul(oc, k);
    let b = exact_dot(d, oc);
    let dd = exact_dot(d, d);
    assert(b == oc.x * k * oc.x + oc.y * k * oc.y + oc.z * k * oc.z);
    assert(dd == oc.x * k * (oc.x * k) + oc.y * k * (oc.y * k) + oc.z * k * (oc.z * k));
    lemma_poly_scaled_dot(oc.x, oc.y, oc.z, k, q);
    lemma_poly_toward(b, dd, q, r_sq, k);
}

/// A ray that starts outside a sphere and points straight away from its
/// center never hits it.
pub proof fn lemma_ray_away_from_center_misses(origin: V3, center: V3, r_sq: int, k: int)
    requires
        0 < r_sq,
        0 < k,
        exact_dot(exact_sub(center, origin), exact_sub(center, origin)) > r_sq,
    ensures
        !exact_ray_hits_sphere(origin, exact_smul(exact_sub(center, origin), -k), center, r_sq),
{
    let oc = exact_sub(center, origin);
    let q = exact_dot(oc, oc);
    let d = exact_smul(oc, -k);
    let b = exact_dot(d, oc);
    assert(b == oc.x * (-k) * oc.x + oc.y * (-k) * oc.y + oc.z * (-k) * oc.z);
    lemma_poly_scaled_dot(oc.x, oc.y, oc.z, -k, q);
    assert(b == -k * q);
    lemma_poly_away(b, q, r_sq, k);
}

#[verifier::nonlinear]
proof fn lemma_poly_away(b: int, q: int, r_sq: int, k: int)
    requires
        b == -k * q,
        q > r_sq,
        r_sq > 0,
        k > 0,
    ensures
        b < 0,
{
}

#[verifier::nonlinear]
proof fn lemma_sq_nonneg(a: int)
    ensures
        a * a >= 0,
{
}

#[verifier::nonlinear]
proof fn lemma_sq_le(a: int, b: int)
    requires
        0 <= a <= b,
    ensures
        a * a <= b * b,
{
}

#[verifier::nonlinear]
proof fn lemma_sq_succ(a: int)
    requires
        0 <= a,
    ensures
        a * a < (a + 1) * (a + 1),
{
}

#[verifier::nonlinear]
proof fn lemma_sq_neg(a: int)
    ensures
        (-a) * (-a) == a * a,
{
}

/// A ray that starts strictly inside a sphere always hits it: with the
/// squared distance from origin to center below the squared radius, the
/// intersection test reports a hit at a non-negative distance — the exit
/// point, the far root, whenever the near root lies behind the origin.
/// The second hypothesis keeps the squared projection `tca²` inside the
/// fixed-point range, where the saturating square is meaningful.
pub proof fn lemma_inside_sphere_hits(s: Sphere, origin: V3, dir: V3)
    requires
        v_wf(origin),
        v_wf(dir),
        sphere_wf(s),
        v_dot_spec(v_sub_spec(s.center@, origin), v_sub_spec(s.center@, origin)) < isect_r2(s),
        isect_tca(s, origin, dir) * isect_tca(s, origin, dir) <= FX_MAX * SCALE,
    ensures
        sphere_hit(s, origin, dir),
        sphere_hit_t(s, origin, dir) >= 0,
        isect_t0(s, origin, dir) < 0 ==> sphere_hit_t(s, origin, dir) == isect_t1(s, origin, dir),
{
    let oc = v_sub_spec(s.center@, origin);
    let docc = v_dot_spec(oc, oc);
    let tca = isect_tca(s, origin, dir);
    let r2 = isect_r2(s);
    let m = crate::fx::fx_mul_spec(tca, tca);
    let d2 = isect_d2(s, origin, dir);
    let w = crate::fx::fx_sub_spec(r2, d2);
    let thc = isect_thc(s, origin, dir);
    let sc = SCALE as int;
    lemma_v_dot_self_nonneg(oc);
    lemma_fx_square_nonneg(tca);
    lemma_sq_nonneg(tca);
    // The saturating square of tca is its exact square scaled down.
    vstd::arithmetic::div_mod::lemma_div_pos_is_pos(tca * tca, sc);
    vstd::arithmetic::div_mod::lemma_div_is_ordered(tca * tca, FX_MAX * sc, sc);
    vstd::arithmetic::div_mod::lemma_div_multiples_vanish(FX_MAX as int, sc);
    assert((sc * FX_MAX) / sc == FX_MAX);
    assert(m == (tca * tca) / sc);
    vstd::arithmetic::div_mod::lemma_fundamental_div_mod(tca * tca, sc);
    vstd::arithmetic::div_mod::lemma_mod_pos_bound(tca * tca, sc);
    assert(m * sc > tca * tca - sc);
    // No saturation in d2: both terms lie in [0, FX_MAX].
    assert(d2 == docc - m);
    assert(d2 < r2);
    // The sqrt argument, scaled up, dominates tca².
    assert(w * sc >= tca * tca + 1 || w * sc == FX_MAX * sc) by {
        if r2 - d2 <= FX_MAX {
            assert(w == r2 - d2);
            assert(w == (r2 - docc) + m);
            assert(w * sc >= tca * tca + 1);
        } else {
            assert(w == FX_MAX as int);
        }
    };
    assert(w * sc >= tca * tca);
    // Hence the half-chord is at least the magnitude of tca.
    assert(w >= 0);
    assert(w * sc >= 0);
    lemma_sqrt_floor_bounds(w * sc);
    assert(thc == sqrt_floor(w * sc));
    let amag = mag(tca);
    lemma_sq_neg(tca);
    assert(amag * amag == tca * tca);
    if thc < amag {
        lemma_sq_le(thc + 1, amag);
        assert(false);
    }
    assert(thc >= amag);
    assert(isect_t1(s, origin, dir) >= 0);
}

/// Multiplying a scalar by the fixed-point unit changes nothing.
proof fn lemma_fx_mul_unit(a: int)
    requires
        in_range(a),
    ensures
        fx_mul_spec(a, SCALE as int) == a,
{
    let sc = SCALE as int;
    if a >= 0 {
        vstd::arithmetic::div_mod::lemma_div_multiples_vanish(a, sc);
        assert(a * sc == sc * a);
        assert(tdiv(a * sc, sc) == a);
    } else {
        vstd::arithmetic::div_mod::lemma_div_multiples_vanish(-a, sc);
        assert(-(a * sc) == sc * (-a));
        assert(tdiv(a * sc, sc) == a);
    }
}

/// Multiplying a scalar by the fixed-point zero gives zero.
proof fn lemma_fx_mul_zero(a: int)
    ensures
        fx_mul_spec(a, 0) == 0,
{
    let sc = SCALE as int;
    vstd::arithmetic::div_mod::lemma_div_multiples_vanish(0, sc);
    assert(a * 0 == 0) by (nonlinear_arith);
    assert(tdiv(0, sc) == 0);
}

/// Refraction between media of equal index bends nothing: with the
/// surface's index equal to 1.0 (the ambient index), the refracted
/// direction is the incident direction itself. The one hypothesis beyond
/// matching indices asks that the squared incidence cosine be exactly
/// representable — that the fixed-point square `cosi * cosi` loses no
/// remainder — since truncation there is the only thing that can bend
/// such a ray.
pub proof fn lemma_refract_matched_index(d: V3, n: V3)
    requires
        v_wf(d),
        v_wf(n),
        ({
            let c = fx_clamp_spec(v_dot_spec(n, d), -(SCALE as int), SCALE as int);
            (c * c) % (SCALE as int) == 0
        }),
    ensures
        spec_refract(d, n, SCALE as int) == Some(d),
{
    let sc = SCALE as int;
    let cdot = v_dot_spec(n, d);
    let cl = fx_clamp_spec(cdot, -sc, sc);
    let c = -cl;
    let cosi = if c < 0 { -c } else { c };
    lemma_sq_neg(cl);
    lemma_sq_neg(c);
    assert(cosi * cosi == cl * cl);
    assert(0 <= cosi <= sc);
    // eta and eta² both come out as exactly 1.0.
    vstd::arithmetic::div_mod::lemma_div_multiples_vanish(sc, sc);
    assert((sc * sc) / sc == sc);
    assert(mag(sc) == sc);
    let eta = fx_div_spec(sc, sc);
    assert(eta == sc);
    assert(tdiv(sc * sc, sc) == sc);
    assert(fx_mul_spec(sc, sc) == sc);
    // The squared cosine is exact: no remainder, no saturation.
    lemma_sq_nonneg(cosi);
    vstd::arithmetic::div_mod::lemma_fundamental_div_mod(cosi * cosi, sc);
    vstd::arithmetic::div_mod::lemma_mod_pos_bound(cosi * cosi, sc);
    assert((cosi * cosi) % sc == 0);
    let c2 = (cosi * cosi) / sc;
    vstd::arithmetic::div_mod::lemma_div_pos_is_pos(cosi * cosi, sc);
    lemma_sq_le(cosi, sc);
    vstd::arithmetic::div_mod::lemma_div_is_ordered(cosi * cosi, sc * sc, sc);
    assert(0 <= c2 <= sc);
    assert(c2 * sc == cosi * cosi);
    assert(fx_mul_spec(cosi, cosi) == c2);
    // k reduces to the squared cosine.
    assert(fx_sub_spec(sc, c2) == sc - c2);
    vstd::arithmetic::div_mod::lemma_div_multiples_vanish(sc - c2, sc);
    assert(sc * (sc - c2) == (sc - c2) * sc) by (nonlinear_arith);
    assert(tdiv((sc - c2) * sc, sc) == sc - c2);
    assert(fx_mul_spec(sc, sc - c2) == sc - c2);
    let k = fx_sub_spec(sc, fx_mul_spec(fx_mul_spec(eta, eta), fx_sub_spec(sc, fx_mul_spec(cosi, cosi))));
    assert(k == c2);
    assert(k >= 0);
    // Its square root is the cosine itself.
    lemma_sq_succ(cosi);
    lemma_sqrt_floor_unique(cosi * cosi, cosi);
    assert(crate::fx::fx_sqrt_spec(k) == sqrt_floor(c2 * sc));
    assert(c2 * sc == sc * c2);
    assert(crate::fx::fx_sqrt_spec(k) == cosi);
    // So the normal's coefficient vanishes and the direction is kept.
    lemma_fx_mul_unit(cosi);
    assert(fx_mul_spec(sc, cosi) == cosi) by {
        if cosi >= 0 {
            vstd::arithmetic::div_mod::lemma_div_multiples_vanish(cosi, sc);
            assert(cosi * sc == sc * cosi);
            assert(tdiv(cosi * sc, sc) == cosi);
        }
    };
    assert(fx_sub_spec(fx_mul_spec(eta, cosi), crate::fx::fx_sqrt_spec(k)) == 0);
    lemma_fx_mul_unit(d.x);
    lemma_fx_mul_unit(d.y);
    lemma_fx_mul_unit(d.z);
    let nn = if c < 0 { crate::vec3::v_neg_spec(n) } else { n };
    lemma_fx_mul_zero(nn.x);
    lemma_fx_mul_zero(nn.y);
    lemma_fx_mul_zero(nn.z);
    let v = v_add_spec(v_smul_spec(d, eta), v_smul_spec(nn, 0));
    assert(v.x == d.x && v.y == d.y && v.z == d.z);
    assert(v == d);
    assert(spec_refract(d, n, sc) == Some(v));
}

} // verus!

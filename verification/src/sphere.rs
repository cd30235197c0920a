//! Sphere primitives and the analytic ray–sphere intersection test.

use vstd::prelude::*;
use crate::fx::{
    fx_add, fx_add_spec, fx_mul, fx_mul_spec, fx_sqrt, fx_sqrt_spec, fx_sub, fx_sub_spec, in_range,
};
use crate::material::{material_wf, Material};
use crate::vec3::{v_dot_spec, v_normalize_spec, v_sub_spec, v_wf, Vec3, V3};

verus! {

/// An immutable sphere: center, positive radius, and the material of its
/// surface.
#[derive(Clone, Copy, Debug)]
pub struct Sphere {
    pub center: Vec3,
    pub radius: i64,
    pub material: Material,
}

pub open spec fn sphere_wf(s: Sphere) -> bool {
    &&& v_wf(s.center@)
    &&& 0 < s.radius && in_range(s.radius as int)
    &&& material_wf(s.material)
}

/// Projection of the center onto the ray: `(center - origin) . dir`.
pub open spec fn isect_tca(s: Sphere, origin: V3, dir: V3) -> int {
    v_dot_spec(v_sub_spec(s.center@, origin), dir)
}

/// Squared distance from the center to the ray's closest approach.
pub open spec fn isect_d2(s: Sphere, origin: V3, dir: V3) -> int {
    let oc = v_sub_spec(s.center@, origin);
    let tca = isect_tca(s, origin, dir);
    fx_sub_spec(v_dot_spec(oc, oc), fx_mul_spec(tca, tca))
}

/// The squared radius.
pub open spec fn isect_r2(s: Sphere) -> int {
    fx_mul_spec(s.radius as int, s.radius as int)
}

/// Half the chord the ray cuts through the sphere.
pub open spec fn isect_thc(s: Sphere, origin: V3, dir: V3) -> int {
    fx_sqrt_spec(fx_sub_spec(isect_r2(s), isect_d2(s, origin, dir)))
}

/// The near parametric root.
pub open spec fn isect_t0(s: Sphere, origin: V3, dir: V3) -> int {
    fx_sub_spec(isect_tca(s, origin, dir), isect_thc(s, origin, dir))
}

/// The far parametric root.
pub open spec fn isect_t1(s: Sphere, origin: V3, dir: V3) -> int {
    fx_add_spec(isect_tca(s, origin, dir), isect_thc(s, origin, dir))
}

/// Whether the ray hits the sphere: the closest approach lies within the
/// radius and at least one root is not behind the origin.
pub open spec fn sphere_hit(s: Sphere, origin: V3, dir: V3) -> bool {
    isect_d2(s, origin, dir) <= isect_r2(s) && (isect_t0(s, origin, dir) >= 0 || isect_t1(
        s,
        origin,
        dir,
    ) >= 0)
}

/// The distance returned on a hit: the smallest non-negative root.
pub open spec fn sphere_hit_t(s: Sphere, origin: V3, dir: V3) -> int {
    if isect_t0(s, origin, dir) >= 0 {
        isect_t0(s, origin, dir)
    } else {
        isect_t1(s, origin, dir)
    }
}

/// The outward unit normal at a surface point.
pub open spec fn spec_surface_normal(s: Sphere, p: V3) -> V3 {
    v_normalize_spec(v_sub_spec(p, s.center@))
}

impl Sphere {
    pub fn new(center: Vec3, radius: i64, material: Material) -> (r: Sphere)
        requires
            v_wf(center@),
            0 < radius && in_range(radius as int),
            material_wf(material),
        ensures
            r.center == center,
            r.radius == radius,
            r.material == material,
            sphere_wf(r),
    {
        Sphere { center, radius, material }
    }

    /// The smallest non-negative parametric distance at which the ray
    /// `origin + t * direction` meets the sphere, or `None` when the ray
    /// misses it or the sphere lies entirely behind the origin.
    pub fn ray_intersect(&self, origin: &Vec3, direction: &Vec3) -> (r: Option<i64>)
        requires
            sphere_wf(*self),
            v_wf(origin@),
            v_wf(direction@),
        ensures
            r is Some <==> sphere_hit(*self, origin@, direction@),
            r is Some ==> r->0 == sphere_hit_t(*self, origin@, direction@),
            r is Some ==> r->0 >= 0 && in_range(r->0 as int),
    {
        let oc = self.center.sub(origin);
        let tca = oc.dot(direction);
        let d2 = fx_sub(oc.dot(&oc), fx_mul(tca, tca));
        let r2 = fx_mul(self.radius, self.radius);
        if d2 > r2 {
            return None;
        }
        let thc = fx_sqrt(fx_sub(r2, d2));
        let t0 = fx_sub(tca, thc);
        if t0 < 0 {
            let t1 = fx_add(tca, thc);
            if t1 < 0 {
                None
            } else {
                Some(t1)
            }
        } else {
            Some(t0)
        }
    }

    /// The outward unit normal at `hit_point`, which always points away
    /// from the center, whichever side the ray came from.
    pub fn surface_normal(&self, hit_point: &Vec3) -> (r: Vec3)
        requires
            sphere_wf(*self),
            v_wf(hit_point@),
        ensures
            r@ == spec_surface_normal(*self, hit_point@),
            v_wf(r@),
    {
        hit_point.sub(&self.center).normalize()
    }

    pub fn material(&self) -> (r: Material)
        ensures
            r == self.material,
    {
        self.material
    }
}

} // verus!

//! Rays, intersection reports, and the reflection and refraction of
//! directions at a surface.

use vstd::prelude::*;
use crate::fx::{
    fx_add, fx_add_spec, fx_clamp, fx_clamp_spec, fx_div, fx_div_spec, fx_mul, fx_mul_spec,
    fx_sqrt, fx_sqrt_spec, fx_sub, fx_sub_spec, in_range, SCALE,
};
use crate::material::{material_wf, Material};
use crate::vec3::{
    v_add_spec, v_dot_spec, v_neg_spec, v_smul_spec, v_sub_spec, v_wf, Vec3, V3,
};

verus! {

/// How far a secondary ray's origin is nudged off the surface (one
/// thousandth of a unit), so it cannot immediately re-hit the surface it
/// starts on.
pub const SURFACE_OFFSET: i64 = 1_000;

/// A ray: an origin and a direction, used exactly as given.
#[derive(Clone, Copy, PartialEq, Eq, Structural, Debug)]
pub struct Ray {
    pub origin: Vec3,
    pub direction: Vec3,
}

pub open spec fn ray_wf(r: Ray) -> bool {
    v_wf(r.origin@) && v_wf(r.direction@)
}

impl Ray {
    pub fn new(origin: Vec3, direction: Vec3) -> (r: Ray)
        requires
            v_wf(origin@),
            v_wf(direction@),
        ensures
            r.origin == origin,
            r.direction == direction,
            ray_wf(r),
    {
        Ray { origin, direction }
    }
}

/// What scene intersection reports: the hit surface's material, the hit
/// point in world space, and the outward unit normal there.
#[derive(Clone, Copy, Debug)]
pub struct RaycastHit {
    pub material: Material,
    pub position: Vec3,
    pub normal: Vec3,
}

pub open spec fn hit_wf(h: RaycastHit) -> bool {
    material_wf(h.material) && v_wf(h.position@) && v_wf(h.normal@)
}

/// Where a secondary ray with direction `dir` starts: the hit position
/// offset along the normal, toward the side of the surface `dir` points
/// to.
pub open spec fn spec_get_surface(position: V3, normal: V3, dir: V3) -> V3 {
    if v_dot_spec(dir, normal) < 0 {
        v_sub_spec(position, v_smul_spec(normal, SURFACE_OFFSET as int))
    } else {
        v_add_spec(position, v_smul_spec(normal, SURFACE_OFFSET as int))
    }
}

impl RaycastHit {
    /// The starting point for a secondary ray leaving this hit in
    /// direction `dir`.
    pub fn get_surface(&self, dir: &Vec3) -> (r: Vec3)
        requires
            hit_wf(*self),
            v_wf(dir@),
        ensures
            r@ == spec_get_surface(self.position@, self.normal@, dir@),
            v_wf(r@),
    {
        let step = self.normal.smul(SURFACE_OFFSET);
        if dir.dot(&self.normal) < 0 {
            self.position.sub(&step)
        } else {
            self.position.add(&step)
        }
    }
}

/// The mirror image of `d` about the plane with unit normal `n`:
/// `2 (d . n) n - d`. Under the sign convention of the shading loop, `d`
/// points from the surface outward (toward light or viewer).
pub open spec fn spec_reflect(d: V3, n: V3) -> V3 {
    let t = v_dot_spec(d, n);
    v_sub_spec(v_smul_spec(n, fx_add_spec(t, t)), d)
}

pub fn reflect(d: &Vec3, n: &Vec3) -> (r: Vec3)
    requires
        v_wf(d@),
        v_wf(n@),
    ensures
        r@ == spec_reflect(d@, n@),
        v_wf(r@),
{
    let t = d.dot(n);
    n.smul(fx_add(t, t)).sub(d)
}

/// Snell refraction of `incident` crossing the surface with outward unit
/// normal `normal`, between vacuum (index 1.0) and a medium with the
/// given fixed-point index. `None` means total internal reflection: no
/// refracted ray exists, and the caller contributes nothing instead of
/// following a degenerate direction.
pub open spec fn spec_refract(incident: V3, normal: V3, refractive_index: int) -> Option<V3> {
    let c = -fx_clamp_spec(v_dot_spec(normal, incident), -(SCALE as int), SCALE as int);
    let cosi = if c < 0 {
        -c
    } else {
        c
    };
    let etai = if c < 0 {
        refractive_index
    } else {
        SCALE as int
    };
    let etat = if c < 0 {
        SCALE as int
    } else {
        refractive_index
    };
    let nn = if c < 0 {
        v_neg_spec(normal)
    } else {
        normal
    };
    let eta = fx_div_spec(etai, etat);
    let k = fx_sub_spec(
        SCALE as int,
        fx_mul_spec(fx_mul_spec(eta, eta), fx_sub_spec(SCALE as int, fx_mul_spec(cosi, cosi))),
    );
    if k < 0 {
        None
    } else {
        Some(
            v_add_spec(
                v_smul_spec(incident, eta),
                v_smul_spec(nn, fx_sub_spec(fx_mul_spec(eta, cosi), fx_sqrt_spec(k))),
            ),
        )
    }
}

pub fn refract(incident: &Vec3, normal: &Vec3, refractive_index: i64) -> (r: Option<Vec3>)
    requires
        v_wf(incident@),
        v_wf(normal@),
        in_range(refractive_index as int),
    ensures
        r is Some <==> spec_refract(incident@, normal@, refractive_index as int) is Some,
        r is Some ==> r->0@ == spec_refract(incident@, normal@, refractive_index as int)->0,
        r is Some ==> v_wf(r->0@),
{
    let c = -fx_clamp(normal.dot(incident), -SCALE, SCALE);
    let cosi: i64 = if c < 0 {
        -c
    } else {
        c
    };
    let etai: i64 = if c < 0 {
        refractive_index
    } else {
        SCALE
    };
    let etat: i64 = if c < 0 {
        SCALE
    } else {
        refractive_index
    };
    let nn: Vec3 = if c < 0 {
        normal.neg()
    } else {
        *normal
    };
    let eta = fx_div(etai, etat);
    let k = fx_sub(SCALE, fx_mul(fx_mul(eta, eta), fx_sub(SCALE, fx_mul(cosi, cosi))));
    if k < 0 {
        None
    } else {
        Some(incident.smul(eta).add(&nn.smul(fx_sub(fx_mul(eta, cosi), fx_sqrt(k)))))
    }
}

} // verus!

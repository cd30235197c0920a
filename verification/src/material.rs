//! Surface materials: how a surface scatters incoming light.

use vstd::prelude::*;
use crate::fx::in_range;
use crate::vec3::{v_wf, Vec3};

verus! {

/// An immutable description of a surface.
///
/// `albedo` holds four non-negative weights scaling, in order, the
/// diffuse, specular, mirror-reflected and refracted contributions; they
/// need not sum to one. `diffuse_color` is a linear RGB triple,
/// `specular_exponent` the Phong shininess, and `refractive_index` the
/// fixed-point index of the medium behind the surface.
#[derive(Clone, Copy, Debug)]
pub struct Material {
    pub albedo: [i64; 4],
    pub diffuse_color: Vec3,
    pub specular_exponent: u32,
    pub refractive_index: i64,
}

pub open spec fn material_wf(m: Material) -> bool {
    &&& 0 <= m.albedo[0] && in_range(m.albedo[0] as int)
    &&& 0 <= m.albedo[1] && in_range(m.albedo[1] as int)
    &&& 0 <= m.albedo[2] && in_range(m.albedo[2] as int)
    &&& 0 <= m.albedo[3] && in_range(m.albedo[3] as int)
    &&& v_wf(m.diffuse_color@)
    &&& m.specular_exponent >= 1
    &&& 0 < m.refractive_index && in_range(m.refractive_index as int)
}

impl Material {
    pub fn new(
        albedo: [i64; 4],
        diffuse_color: Vec3,
        specular_exponent: u32,
        refractive_index: i64,
    ) -> (r: Material)
        requires
            0 <= albedo[0] && in_range(albedo[0] as int),
            0 <= albedo[1] && in_range(albedo[1] as int),
            0 <= albedo[2] && in_range(albedo[2] as int),
            0 <= albedo[3] && in_range(albedo[3] as int),
            v_wf(diffuse_color@),
            specular_exponent >= 1,
            0 < refractive_index && in_range(refractive_index as int),
        ensures
            r.albedo == albedo,
            r.diffuse_color == diffuse_color,
            r.specular_exponent == specular_exponent,
            r.refractive_index == refractive_index,
            material_wf(r),
    {
        Material { albedo, diffuse_color, specular_exponent, refractive_index }
    }
}

} // verus!

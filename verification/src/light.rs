//! Point lights.

use vstd::prelude::*;
use crate::fx::in_range;
use crate::vec3::{v_wf, Vec3};

verus! {

/// A point light: a world position and a dimensionless positive
/// intensity multiplier.
#[derive(Clone, Copy, PartialEq, Eq, Structural, Debug)]
pub struct Light {
    pub position: Vec3,
    pub intensity: i64,
}

pub open spec fn light_wf(l: Light) -> bool {
    v_wf(l.position@) && 0 < l.intensity && in_range(l.intensity as int)
}

impl Light {
    pub fn new(position: Vec3, intensity: i64) -> (r: Light)
        requires
            v_wf(position@),
            0 < intensity && in_range(intensity as int),
        ensures
            r.position == position,
            r.intensity == intensity,
            light_wf(r),
    {
        Light { position, intensity }
    }
}

} // verus!

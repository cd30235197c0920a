//! Three-component vectors over fixed-point scalars, used for positions,
//! directions and linear RGB colors alike.

use vstd::prelude::*;
use crate::fx::{
    fx_add, fx_add_spec, fx_div, fx_div_spec, fx_mul, fx_mul_spec, fx_neg, fx_neg_spec, fx_sqrt,
    fx_sqrt_spec, fx_sub, fx_sub_spec, in_range, lemma_fx_square_nonneg, sat, FX_MAX,
};

verus! {

/// A vector of three fixed-point scalars.
#[derive(Clone, Copy, PartialEq, Eq, Structural, Debug)]
pub struct Vec3 {
    pub x: i64,
    pub y: i64,
    pub z: i64,
}

/// The mathematical shadow of a [`Vec3`]: its components as unbounded
/// integers, still measured in millionths.
pub ghost struct V3 {
    pub x: int,
    pub y: int,
    pub z: int,
}

impl View for Vec3 {
    type V = V3;

    open spec fn view(&self) -> V3 {
        V3 { x: self.x as int, y: self.y as int, z: self.z as int }
    }
}

pub open spec fn v_wf(a: V3) -> bool {
    in_range(a.x) && in_range(a.y) && in_range(a.z)
}

pub open spec fn v_add_spec(a: V3, b: V3) -> V3 {
    V3 { x: fx_add_spec(a.x, b.x), y: fx_add_spec(a.y, b.y), z: fx_add_spec(a.z, b.z) }
}

pub open spec fn v_sub_spec(a: V3, b: V3) -> V3 {
    V3 { x: fx_sub_spec(a.x, b.x), y: fx_sub_spec(a.y, b.y), z: fx_sub_spec(a.z, b.z) }
}

pub open spec fn v_neg_spec(a: V3) -> V3 {
    V3 { x: fx_neg_spec(a.x), y: fx_neg_spec(a.y), z: fx_neg_spec(a.z) }
}

/// Scale every component by the fixed-point scalar `s`.
pub open spec fn v_smul_spec(a: V3, s: int) -> V3 {
    V3 { x: fx_mul_spec(a.x, s), y: fx_mul_spec(a.y, s), z: fx_mul_spec(a.z, s) }
}

/// The fixed-point dot product: the three component products, summed and
/// saturated.
pub open spec fn v_dot_spec(a: V3, b: V3) -> int {
    sat(fx_mul_spec(a.x, b.x) + fx_mul_spec(a.y, b.y) + fx_mul_spec(a.z, b.z))
}

/// Euclidean length, rounded down to the next representable scalar.
pub open spec fn v_norm_spec(a: V3) -> int {
    fx_sqrt_spec(v_dot_spec(a, a))
}

/// The unit vector along `a`; the zero vector stays zero.
pub open spec fn v_normalize_spec(a: V3) -> V3 {
    let n = v_norm_spec(a);
    V3 { x: fx_div_spec(a.x, n), y: fx_div_spec(a.y, n), z: fx_div_spec(a.z, n) }
}

/// The squared length of a vector never comes out negative.
pub proof fn lemma_v_dot_self_nonneg(a: V3)
    ensures
        v_dot_spec(a, a) >= 0,
{
    lemma_fx_square_nonneg(a.x);
    lemma_fx_square_nonneg(a.y);
    lemma_fx_square_nonneg(a.z);
}

impl Vec3 {
    pub fn new(x: i64, y: i64, z: i64) -> (r: Vec3)
        requires
            in_range(x as int),
            in_range(y as int),
            in_range(z as int),
        ensures
            r.x == x && r.y == y && r.z == z,
            v_wf(r@),
    {
        Vec3 { x, y, z }
    }

    pub fn zeros() -> (r: Vec3)
        ensures
            r@ == (V3 { x: 0, y: 0, z: 0 }),
            v_wf(r@),
    {
        Vec3 { x: 0, y: 0, z: 0 }
    }

    pub fn add(&self, o: &Vec3) -> (r: Vec3)
        requires
            v_wf(self@),
            v_wf(o@),
        ensures
            r@ == v_add_spec(self@, o@),
            v_wf(r@),
    {
        Vec3 { x: fx_add(self.x, o.x), y: fx_add(self.y, o.y), z: fx_add(self.z, o.z) }
    }

    pub fn sub(&self, o: &Vec3) -> (r: Vec3)
        requires
            v_wf(self@),
            v_wf(o@),
        ensures
            r@ == v_sub_spec(self@, o@),
            v_wf(r@),
    {
        Vec3 { x: fx_sub(self.x, o.x), y: fx_sub(self.y, o.y), z: fx_sub(self.z, o.z) }
    }

    pub fn neg(&self) -> (r: Vec3)
        requires
            v_wf(self@),
        ensures
            r@ == v_neg_spec(self@),
            v_wf(r@),
    {
        Vec3 { x: fx_neg(self.x), y: fx_neg(self.y), z: fx_neg(self.z) }
    }

    pub fn smul(&self, s: i64) -> (r: Vec3)
        requires
            v_wf(self@),
            in_range(s as int),
        ensures
            r@ == v_smul_spec(self@, s as int),
            v_wf(r@),
    {
        Vec3 { x: fx_mul(self.x, s), y: fx_mul(self.y, s), z: fx_mul(self.z, s) }
    }

    pub fn dot(&self, o: &Vec3) -> (r: i64)
        requires
            v_wf(self@),
            v_wf(o@),
        ensures
            r == v_dot_spec(self@, o@),
            in_range(r as int),
    {
        let px = fx_mul(self.x, o.x);
        let py = fx_mul(self.y, o.y);
        let pz = fx_mul(self.z, o.z);
        let s: i64 = px + py + pz;
        if s > FX_MAX {
            FX_MAX
        } else if s < -FX_MAX {
            -FX_MAX
        } else {
            s
        }
    }

    pub fn norm(&self) -> (r: i64)
        requires
            v_wf(self@),
        ensures
            r == v_norm_spec(self@),
            0 <= r,
            in_range(r as int),
    {
        proof {
            lemma_v_dot_self_nonneg(self@);
        }
        let d = self.dot(self);
        fx_sqrt(d)
    }

    pub fn normalize(&self) -> (r: Vec3)
        requires
            v_wf(self@),
        ensures
            r@ == v_normalize_spec(self@),
            v_wf(r@),
    {
        let n = self.norm();
        Vec3 { x: fx_div(self.x, n), y: fx_div(self.y, n), z: fx_div(self.z, n) }
    }
}

} // verus!

//! Saturating decimal fixed-point scalars.
//!
//! A scalar is an `i64` counting millionths: `SCALE` stands for the real
//! number 1.0. Every operation clamps its result into
//! `[-FX_MAX, FX_MAX]` instead of overflowing, and each executable
//! function returns exactly the value of its spec-level counterpart.

use vstd::prelude::*;

verus! {

/// The fixed-point unit: this many raw steps stand for 1.0.
pub const SCALE: i64 = 1_000_000;

/// Largest magnitude a scalar may take (one billion units of 1.0).
/// Every arithmetic operation saturates at this bound.
pub const FX_MAX: i64 = 1_000_000_000_000_000;

pub open spec fn in_range(x: int) -> bool {
    -FX_MAX <= x <= FX_MAX
}

/// Clamp a mathematical result into the representable scalar range.
pub open spec fn sat(x: int) -> int {
    if x > FX_MAX {
        FX_MAX as int
    } else if x < -FX_MAX {
        -(FX_MAX as int)
    } else {
        x
    }
}

/// Magnitude of an integer.
pub open spec fn mag(x: int) -> int {
    if x < 0 {
        -x
    } else {
        x
    }
}

/// Division by a positive divisor that truncates toward zero, the way
/// hardware division behaves once signs are split off.
pub open spec fn tdiv(x: int, d: int) -> int {
    if x >= 0 {
        x / d
    } else {
        -((-x) / d)
    }
}

pub open spec fn fx_add_spec(a: int, b: int) -> int {
    sat(a + b)
}

pub open spec fn fx_sub_spec(a: int, b: int) -> int {
    sat(a - b)
}

pub open spec fn fx_neg_spec(a: int) -> int {
    sat(-a)
}

/// The fixed-point product: the exact product scaled back down,
/// truncated toward zero, then saturated.
pub open spec fn fx_mul_spec(a: int, b: int) -> int {
    sat(tdiv(a * b, SCALE as int))
}

/// The fixed-point quotient. Division by zero is defined as zero so the
/// model stays total; callers that care test the divisor themselves.
pub open spec fn fx_div_spec(a: int, b: int) -> int {
    if b == 0 {
        0
    } else {
        let q = (mag(a) * SCALE) / mag(b);
        if (a < 0) != (b < 0) {
            sat(-q)
        } else {
            sat(q)
        }
    }
}

/// The integer square root: the largest `r` with `r * r <= x`.
pub open spec fn sqrt_floor(x: int) -> int
    decreases x,
{
    if x <= 0 {
        0
    } else {
        let r = sqrt_floor(x - 1);
        if (r + 1) * (r + 1) <= x {
            r + 1
        } else {
            r
        }
    }
}

/// The fixed-point square root rounds the real square root down to the
/// next representable scalar.
pub open spec fn fx_sqrt_spec(a: int) -> int {
    sqrt_floor(a * SCALE)
}

pub open spec fn fx_clamp_spec(x: int, lo: int, hi: int) -> int {
    if x < lo {
        lo
    } else if x > hi {
        hi
    } else {
        x
    }
}

pub open spec fn fx_max_spec(a: int, b: int) -> int {
    if a >= b {
        a
    } else {
        b
    }
}

pub proof fn lemma_sqrt_floor_bounds(x: int)
    requires
        0 <= x,
    ensures
        0 <= sqrt_floor(x),
        sqrt_floor(x) * sqrt_floor(x) <= x,
        x < (sqrt_floor(x) + 1) * (sqrt_floor(x) + 1),
    decreases x,
{
    if x == 0 {
    } else {
        lemma_sqrt_floor_bounds(x - 1);
        let r = sqrt_floor(x - 1);
        if (r + 1) * (r + 1) <= x {
            assert(x - 1 < (r + 1) * (r + 1));
            assert(x == (r + 1) * (r + 1));
            assert((r + 2) * (r + 2) > (r + 1) * (r + 1)) by (nonlinear_arith)
                requires
                    r >= 0,
            ;
        }
    }
}

pub proof fn lemma_sqrt_floor_unique(x: int, r: int)
    requires
        0 <= r,
        r * r <= x,
        x < (r + 1) * (r + 1),
    ensures
        r == sqrt_floor(x),
{
    lemma_sqrt_floor_bounds(x);
    let s = sqrt_floor(x);
    if r < s {
        assert((r + 1) * (r + 1) <= s * s) by (nonlinear_arith)
            requires
                0 <= r,
                r + 1 <= s,
        ;
    }
    if s < r {
        assert((s + 1) * (s + 1) <= r * r) by (nonlinear_arith)
            requires
                0 <= s,
                s + 1 <= r,
        ;
    }
}

/// A fixed-point square is never negative.
pub proof fn lemma_fx_square_nonneg(a: int)
    ensures
        fx_mul_spec(a, a) >= 0,
{
    assert(a * a >= 0) by (nonlinear_arith);
}

pub fn fx_add(a: i64, b: i64) -> (r: i64)
    requires
        in_range(a as int),
        in_range(b as int),
    ensures
        r == fx_add_spec(a as int, b as int),
        in_range(r as int),
{
    let s: i64 = a + b;
    if s > FX_MAX {
        FX_MAX
    } else if s < -FX_MAX {
        -FX_MAX
    } else {
        s
    }
}

pub fn fx_sub(a: i64, b: i64) -> (r: i64)
    requires
        in_range(a as int),
        in_range(b as int),
    ensures
        r == fx_sub_spec(a as int, b as int),
        in_range(r as int),
{
    let s: i64 = a - b;
    if s > FX_MAX {
        FX_MAX
    } else if s < -FX_MAX {
        -FX_MAX
    } else {
        s
    }
}

pub fn fx_neg(a: i64) -> (r: i64)
    requires
        in_range(a as int),
    ensures
        r == fx_neg_spec(a as int),
        in_range(r as int),
{
    -a
}

pub fn fx_mul(a: i64, b: i64) -> (r: i64)
    requires
        in_range(a as int),
        in_range(b as int),
    ensures
        r == fx_mul_spec(a as int, b as int),
        in_range(r as int),
{
    proof {
        assert(a as int * b as int <= 1_000_000_000_000_000i128 * 1_000_000_000_000_000
            && a as int * b as int >= -(1_000_000_000_000_000i128 * 1_000_000_000_000_000))
            by (nonlinear_arith)
            requires
                -1_000_000_000_000_000 <= a as int <= 1_000_000_000_000_000,
                -1_000_000_000_000_000 <= b as int <= 1_000_000_000_000_000,
        ;
    }
    let p: i128 = (a as i128) * (b as i128);
    let neg: bool = p < 0;
    let m: u128 = if neg {
        (-p) as u128
    } else {
        p as u128
    };
    assert(m == mag(a as int * b as int));
    let q: u128 = m / (SCALE as u128);
    let qc: u128 = if q > FX_MAX as u128 {
        FX_MAX as u128
    } else {
        q
    };
    let qi: i64 = qc as i64;
    if neg {
        -qi
    } else {
        qi
    }
}

pub fn fx_div(a: i64, b: i64) -> (r: i64)
    requires
        in_range(a as int),
        in_range(b as int),
    ensures
        r == fx_div_spec(a as int, b as int),
        in_range(r as int),
{
    if b == 0 {
        return 0;
    }
    let neg: bool = (a < 0) != (b < 0);
    let ma: u128 = if a < 0 {
        (-(a as i128)) as u128
    } else {
        a as u128
    };
    let mb: u128 = if b < 0 {
        (-(b as i128)) as u128
    } else {
        b as u128
    };
    assert(ma <= 1_000_000_000_000_000u128);
    proof {
        assert((ma as int) * 1_000_000 <= 1_000_000_000_000_000i128 * 1_000_000)
            by (nonlinear_arith)
            requires
                ma as int <= 1_000_000_000_000_000,
        ;
    }
    let q: u128 = (ma * (SCALE as u128)) / mb;
    let qc: u128 = if q > FX_MAX as u128 {
        FX_MAX as u128
    } else {
        q
    };
    let qi: i64 = qc as i64;
    if neg {
        -qi
    } else {
        qi
    }
}

fn isqrt_u128(x: u128) -> (r: u128)
    requires
        x < 68_719_476_736 * 68_719_476_736,
    ensures
        r == sqrt_floor(x as int),
        r < 68_719_476_736,
{
    let mut lo: u128 = 0;
    let mut hi: u128 = 68_719_476_736;
    while lo + 1 < hi
        invariant
            lo < hi,
            hi <= 68_719_476_736,
            lo as int * lo as int <= x as int,
            (x as int) < hi as int * hi as int,
        decreases hi - lo,
    {
        let mid: u128 = lo + (hi - lo) / 2;
        proof {
            assert((mid as int) * (mid as int) < 68_719_476_736i128 * 68_719_476_736)
                by (nonlinear_arith)
                requires
                    0 <= mid as int,
                    (mid as int) < 68_719_476_736,
            ;
        }
        if mid * mid <= x {
            lo = mid;
        } else {
            hi = mid;
        }
    }
    proof {
        lemma_sqrt_floor_unique(x as int, lo as int);
    }
    lo
}

pub fn fx_sqrt(a: i64) -> (r: i64)
    requires
        0 <= a,
        in_range(a as int),
    ensures
        r == fx_sqrt_spec(a as int),
        0 <= r,
        in_range(r as int),
{
    let x: u128 = (a as u128) * (SCALE as u128);
    let r = isqrt_u128(x);
    r as i64
}

/// The Phong power: `b` multiplied into 1.0 exactly `e` times, in that
/// order.
pub open spec fn fx_pow_spec(b: int, e: nat) -> int
    decreases e,
{
    if e == 0 {
        SCALE as int
    } else {
        fx_mul_spec(fx_pow_spec(b, (e - 1) as nat), b)
    }
}

pub fn fx_pow(b: i64, e: u32) -> (r: i64)
    requires
        in_range(b as int),
    ensures
        r == fx_pow_spec(b as int, e as nat),
        in_range(r as int),
{
    let mut r: i64 = SCALE;
    let mut i: u32 = 0;
    while i < e
        invariant
            i <= e,
            in_range(b as int),
            in_range(r as int),
            r == fx_pow_spec(b as int, i as nat),
        decreases e - i,
    {
        r = fx_mul(r, b);
        i = i + 1;
    }
    r
}

pub fn fx_clamp(x: i64, lo: i64, hi: i64) -> (r: i64)
    requires
        lo <= hi,
    ensures
        r == fx_clamp_spec(x as int, lo as int, hi as int),
{
    if x < lo {
        lo
    } else if x > hi {
        hi
    } else {
        x
    }
}

pub fn fx_max(a: i64, b: i64) -> (r: i64)
    ensures
        r == fx_max_spec(a as int, b as int),
{
    if a >= b {
        a
    } else {
        b
    }
}

} // verus!

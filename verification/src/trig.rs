//! Fixed-point circular functions and rotation about the vertical axis.
//!
//! The sine is the classical rational quarter-wave approximation,
//! `16x(pi - x) / (5 pi^2 - 4x(pi - x))`, carried out in exact integer
//! arithmetic and extended to a full turn by symmetry; its contract is
//! the integer formula itself.  Nothing downstream depends on how close
//! it runs to the real sine, only on its determinism and range.

use vstd::prelude::*;
use crate::fixed::{SCALE, abs_i, divt, mul_div, lemma_divt_prod_le, lemma_divt_mono,
    lemma_div_le_factor};
use crate::vec3::Vec3Fp;

verus! {

/// Half turn in fixed-point radians.
pub const PI_FP: i64 = 3_141_593;

/// Quarter turn in fixed-point radians.
pub const HALF_PI_FP: i64 = 1_570_796;

/// Full turn in fixed-point radians; accumulated yaws live in
/// `[0, TAU_FP)`.
pub const TAU_FP: i64 = 6_283_185;

/// Quarter-wave sine: exact integer form of the rational approximation
/// on `[0, HALF_PI_FP]`.
pub open spec fn sin_quarter(x: int) -> int {
    let a = divt(x * (PI_FP - x), SCALE as int);
    let den = divt(5 * PI_FP * PI_FP, SCALE as int) - 4 * a;
    divt(16 * a * SCALE, den)
}

/// Sine over a full turn, by quarter-wave symmetry.
pub open spec fn sin_fp(x: int) -> int {
    if x <= HALF_PI_FP {
        sin_quarter(x)
    } else if x <= PI_FP {
        sin_quarter(PI_FP - x)
    } else if x <= PI_FP + HALF_PI_FP {
        -sin_quarter(x - PI_FP)
    } else {
        -sin_quarter(TAU_FP - x)
    }
}

/// Cosine over a full turn: the sine a quarter turn ahead.
pub open spec fn cos_fp(x: int) -> int {
    sin_fp(
        if x + HALF_PI_FP >= TAU_FP {
            x + HALF_PI_FP - TAU_FP
        } else {
            x + HALF_PI_FP
        },
    )
}

/// The x component of a vector rotated by `yaw` about the vertical axis.
pub open spec fn rot_y_x(v: Vec3Fp, yaw: int) -> int {
    divt(v.x * cos_fp(yaw), SCALE as int) + divt(v.z * sin_fp(yaw), SCALE as int)
}

/// The z component of a vector rotated by `yaw` about the vertical axis.
pub open spec fn rot_y_z(v: Vec3Fp, yaw: int) -> int {
    divt(v.z * cos_fp(yaw), SCALE as int) - divt(v.x * sin_fp(yaw), SCALE as int)
}

/// Quarter-wave sine; the result stays within `[0, SCALE]`.
fn sin_quarter64(x: i64) -> (r: i64)
    requires
        0 <= x <= HALF_PI_FP,
    ensures
        r as int == sin_quarter(x as int),
        0 <= r <= SCALE,
{
    proof {
        assert(x as int * (PI_FP - x) as int <= 1_570_796 * 1_570_797) by (nonlinear_arith)
            requires
                0 <= x as int <= 1_570_796;
        assert(0 <= x as int * (PI_FP - x) as int) by (nonlinear_arith)
            requires
                0 <= x as int <= 1_570_796;
        assert(1_570_796int * 1_570_797 == 2_467_401_644_412) by (nonlinear_arith);
        lemma_divt_mono(x as int * (PI_FP - x) as int, 2_467_401_644_412, SCALE as int);
        assert(2_467_401_644_412int / 1_000_000int == 2_467_401);
    }
    let a = mul_div(x, PI_FP - x, SCALE);
    assert(0 <= a <= 2_467_401);
    // 5 * PI_FP^2 / SCALE == 49_348_032; the denominator stays positive
    // and at least as large as the numerator's coefficient.
    let den = 49_348_032 - 4 * a;
    proof {
        assert(5 * PI_FP * PI_FP == 49_348_032_888_245) by (nonlinear_arith);
        assert(divt(49_348_032_888_245, SCALE as int) == 49_348_032);
        assert(16 * a as int * SCALE <= SCALE as int * den) by (nonlinear_arith)
            requires
                0 <= a as int <= 2_467_401,
                den == 49_348_032 - 4 * a as int;
        assert(0 <= 16 * a as int * SCALE) by (nonlinear_arith)
            requires
                0 <= a as int;
        lemma_div_le_factor(16 * a as int * SCALE, SCALE as int, den as int);
    }
    mul_div(16 * a, SCALE, den)
}

/// Sine of an angle in `[0, TAU_FP)`; magnitude at most `SCALE`.
pub fn sin64(x: i64) -> (r: i64)
    requires
        0 <= x < TAU_FP,
    ensures
        r as int == sin_fp(x as int),
        abs_i(r as int) <= SCALE,
{
    if x <= HALF_PI_FP {
        sin_quarter64(x)
    } else if x <= PI_FP {
        sin_quarter64(PI_FP - x)
    } else if x <= PI_FP + HALF_PI_FP {
        -sin_quarter64(x - PI_FP)
    } else {
        -sin_quarter64(TAU_FP - x)
    }
}

/// Cosine of an angle in `[0, TAU_FP)`; magnitude at most `SCALE`.
pub fn cos64(x: i64) -> (r: i64)
    requires
        0 <= x < TAU_FP,
    ensures
        r as int == cos_fp(x as int),
        abs_i(r as int) <= SCALE,
{
    let y = if x + HALF_PI_FP >= TAU_FP {
        x + HALF_PI_FP - TAU_FP
    } else {
        x + HALF_PI_FP
    };
    sin64(y)
}

/// Rotates `v` by `yaw` about the vertical axis; each horizontal
/// component of the result is bounded by the sum of the input's
/// horizontal magnitudes, and `y` is untouched.
pub fn rotate_y(v: Vec3Fp, yaw: i64) -> (r: Vec3Fp)
    requires
        0 <= yaw < TAU_FP,
        v.in_range(1_000_000_000_000_000),
    ensures
        r.x as int == rot_y_x(v, yaw as int),
        r.z as int == rot_y_z(v, yaw as int),
        r.y == v.y,
        abs_i(r.x as int) <= abs_i(v.x as int) + abs_i(v.z as int),
        abs_i(r.z as int) <= abs_i(v.x as int) + abs_i(v.z as int),
{
    let c = cos64(yaw);
    let s = sin64(yaw);
    proof {
        crate::fixed::lemma_divt_scale_le(v.x as int, c as int);
        crate::fixed::lemma_divt_scale_le(v.z as int, s as int);
        crate::fixed::lemma_divt_scale_le(v.z as int, c as int);
        crate::fixed::lemma_divt_scale_le(v.x as int, s as int);
    }
    let rx = mul_div(v.x, c, SCALE) + mul_div(v.z, s, SCALE);
    let rz = mul_div(v.z, c, SCALE) - mul_div(v.x, s, SCALE);
    Vec3Fp { x: rx, y: v.y, z: rz }
}

} // verus!

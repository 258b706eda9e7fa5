//! The view-bound constrainer.
//!
//! Runs after zoom and pan each frame: raises the camera to a minimum
//! height, ray-casts its forward direction onto the ground plane, and if
//! the hit point's horizontal distance from the origin exceeds the scene
//! radius (furthest planet, floored) plus a margin, translates the
//! camera so the hit point lands exactly on the limit circle, keeping
//! the view direction.

use vstd::prelude::*;
use crate::fixed::{
    SCALE, abs_i, divt, mul_div, isqrt, isqrt_up, sqrt_floor, sqrt_ceil, lemma_abs_mul,
    lemma_divt_mag, lemma_divt_prod_le, lemma_divt_prod_le_den, lemma_div_le_factor,
};
use crate::vec3::Vec3Fp;
use crate::camera::CameraState;
use crate::scene::{SceneIndex, WORLD_LIMIT};

verus! {

/// Minimum camera height above the ground plane (5.0).
pub const MIN_HEIGHT: i64 = 5_000_000;

/// Smallest permitted view radius (20.0), used when planets are absent
/// or clustered near the origin.
pub const RADIUS_FLOOR: i64 = 20_000_000;

/// Margin added to the furthest planet's distance (5.0).
pub const RADIUS_MARGIN: i64 = 5_000_000;

/// Forward-axis vertical components this small (0.001) count as looking
/// parallel to the ground: the ray cast is skipped.
pub const FORWARD_Y_EPS: i64 = 1_000;

/// Cameras handed to the constrainer sit within this box.
pub const CONSTRAIN_POS_LIMIT: i64 = 4_000_000_000_000_000;

/// Largest value the scene radius can take under a well-formed index.
pub const RADIUS_LIMIT: i64 = 12_000_000_000_000;

/// The furthest planet distance from the origin (floor square root)
/// among the first `n` planets, never below `RADIUS_FLOOR`.
pub open spec fn max_radius_prefix(ps: Seq<Vec3Fp>, n: int) -> int
    decreases n,
{
    if n <= 0 {
        RADIUS_FLOOR as int
    } else {
        let d = sqrt_floor(ps[n - 1].norm_sq());
        let rest = max_radius_prefix(ps, n - 1);
        if d > rest {
            d
        } else {
            rest
        }
    }
}

/// The scene radius: the furthest planet distance, floored.
pub open spec fn scene_radius(index: SceneIndex) -> int {
    max_radius_prefix(index.planets@, index.planets@.len() as int)
}

/// The camera with its height raised to the minimum.
pub open spec fn raised(cam: CameraState) -> CameraState {
    if cam.position.y < MIN_HEIGHT {
        CameraState {
            position: Vec3Fp { x: cam.position.x, y: MIN_HEIGHT, z: cam.position.z },
            ..cam
        }
    } else {
        cam
    }
}

/// Ray parameter at which the camera's forward ray meets the ground
/// plane (meaningful only when the forward axis is not near-parallel).
pub open spec fn ground_t(cam: CameraState) -> int {
    divt(-cam.position.y * SCALE, cam.forward.y as int)
}

/// Ground hit point, x coordinate.
pub open spec fn ground_x(cam: CameraState) -> int {
    cam.position.x + divt(cam.forward.x * ground_t(cam), SCALE as int)
}

/// Ground hit point, z coordinate.
pub open spec fn ground_z(cam: CameraState) -> int {
    cam.position.z + divt(cam.forward.z * ground_t(cam), SCALE as int)
}

/// Squared horizontal distance of the ground hit point from the origin.
pub open spec fn ground_dist_sq(cam: CameraState) -> int {
    ground_x(cam) * ground_x(cam) + ground_z(cam) * ground_z(cam)
}

/// Exact squared norm of a bounded vector, in 128 bits.
fn norm_sq_u128(v: Vec3Fp) -> (r: u128)
    requires
        v.in_range(4_000_000_000_000_000_000),
    ensures
        r as int == v.norm_sq(),
        r as int >= 0,
{
    let x = v.x as i128;
    let y = v.y as i128;
    let z = v.z as i128;
    assert({
        &&& 0 <= x as int * x as int <= 16_000_000_000_000_000_000_000_000_000_000_000_000int
        &&& 0 <= y as int * y as int <= 16_000_000_000_000_000_000_000_000_000_000_000_000int
        &&& 0 <= z as int * z as int <= 16_000_000_000_000_000_000_000_000_000_000_000_000int
    }) by (nonlinear_arith)
        requires
            abs_i(x as int) <= 4_000_000_000_000_000_000,
            abs_i(y as int) <= 4_000_000_000_000_000_000,
            abs_i(z as int) <= 4_000_000_000_000_000_000;
    let s = x * x + y * y + z * z;
    s as u128
}

/// Derives the scene's permitted radius: the largest planet distance
/// from the origin, with `RADIUS_FLOOR` as a lower bound.
pub fn max_planet_radius(index: &SceneIndex) -> (r: i64)
    requires
        index.wf(),
    ensures
        r as int == scene_radius(*index),
        RADIUS_FLOOR <= r <= RADIUS_LIMIT,
{
    let n = index.planets.len();
    let mut acc: i64 = RADIUS_FLOOR;
    let mut i: usize = 0;
    while i < n
        invariant
            index.wf(),
            n == index.planets.len(),
            i <= n,
            acc as int == max_radius_prefix(index.planets@, i as int),
            RADIUS_FLOOR <= acc <= RADIUS_LIMIT,
        decreases n - i,
    {
        let p = index.planets[i];
        let nsq = norm_sq_u128(p);
        assert(nsq < 0x4000_0000_0000_0000_0000_0000_0000_0000u128) by (nonlinear_arith)
            requires
                nsq as int == p.norm_sq(),
                abs_i(p.x as int) <= WORLD_LIMIT,
                abs_i(p.y as int) <= WORLD_LIMIT,
                abs_i(p.z as int) <= WORLD_LIMIT;
        let d128 = isqrt(nsq);
        assert(d128 <= RADIUS_LIMIT) by (nonlinear_arith)
            requires
                d128 * d128 <= nsq,
                nsq as int == p.norm_sq(),
                abs_i(p.x as int) <= WORLD_LIMIT,
                abs_i(p.y as int) <= WORLD_LIMIT,
                abs_i(p.z as int) <= WORLD_LIMIT;
        let d = d128 as i64;
        if d > acc {
            acc = d;
        }
        i = i + 1;
    }
    acc
}

/// Clamping the ground point onto the limit circle keeps it inside:
/// scaling both coordinates by `limit / d` with `d` at least the true
/// distance brings the squared norm under `limit^2`.
proof fn lemma_clamp_within(gx: int, gz: int, limit: int, d: int)
    requires
        d > 0,
        limit >= 0,
        gx * gx + gz * gz <= d * d,
    ensures
        ({
            let cx = divt(gx * limit, d);
            let cz = divt(gz * limit, d);
            cx * cx + cz * cz <= limit * limit
        }),
{
    let cx = divt(gx * limit, d);
    let cz = divt(gz * limit, d);
    lemma_abs_mul(gx, limit);
    lemma_abs_mul(gz, limit);
    lemma_divt_mag(gx * limit, d);
    lemma_divt_mag(gz * limit, d);
    vstd::arithmetic::mul::lemma_mul_nonnegative(abs_i(gx), limit);
    vstd::arithmetic::mul::lemma_mul_nonnegative(abs_i(gz), limit);
    vstd::arithmetic::div_mod::lemma_fundamental_div_mod(abs_i(gx) * limit, d);
    vstd::arithmetic::div_mod::lemma_mod_bound(abs_i(gx) * limit, d);
    vstd::arithmetic::div_mod::lemma_fundamental_div_mod(abs_i(gz) * limit, d);
    vstd::arithmetic::div_mod::lemma_mod_bound(abs_i(gz) * limit, d);
    vstd::arithmetic::mul::lemma_mul_is_commutative(d, abs_i(cx));
    vstd::arithmetic::mul::lemma_mul_is_commutative(d, abs_i(cz));
    assert(abs_i(cx) * d <= abs_i(gx) * limit);
    assert(abs_i(cz) * d <= abs_i(gz) * limit);
    assert(cx * cx * (d * d) <= (gx * gx) * (limit * limit)) by (nonlinear_arith)
        requires
            abs_i(cx) * d <= abs_i(gx) * limit,
            d > 0,
            limit >= 0;
    assert(cz * cz * (d * d) <= (gz * gz) * (limit * limit)) by (nonlinear_arith)
        requires
            abs_i(cz) * d <= abs_i(gz) * limit,
            d > 0,
            limit >= 0;
    assert((cx * cx + cz * cz) * (d * d) <= (gx * gx + gz * gz) * (limit * limit))
        by (nonlinear_arith)
        requires
            cx * cx * (d * d) <= (gx * gx) * (limit * limit),
            cz * cz * (d * d) <= (gz * gz) * (limit * limit);
    assert((gx * gx + gz * gz) * (limit * limit) <= (d * d) * (limit * limit))
        by (nonlinear_arith)
        requires
            gx * gx + gz * gz <= d * d,
            limit >= 0;
    assert(cx * cx + cz * cz <= limit * limit) by (nonlinear_arith)
        requires
            (cx * cx + cz * cz) * (d * d) <= (d * d) * (limit * limit),
            d > 0;
}

/// Constrains the camera: raises its height to `MIN_HEIGHT`, and when
/// its forward ray meets the ground plane outside the limit circle
/// (scene radius plus `RADIUS_MARGIN`), pulls it back so the hit point
/// lands exactly on that circle, preserving the view direction.  After
/// the call the camera height is at least `MIN_HEIGHT`, and whenever the
/// ray cast is defined, the ground hit point lies within the limit.
#[verifier::rlimit(60)]
pub fn constrain_camera(cam: &mut CameraState, index: &SceneIndex)
    requires
        old(cam).wf(),
        index.wf(),
        old(cam).position.in_range(CONSTRAIN_POS_LIMIT as int),
    ensures
        final(cam).wf(),
        final(cam).same_frame(*old(cam)),
        final(cam).scale == old(cam).scale,
        final(cam).position.y >= MIN_HEIGHT,
        final(cam).position.y == raised(*old(cam)).position.y,
        ({
            let rc = raised(*old(cam));
            let limit = scene_radius(*index) + RADIUS_MARGIN;
            &&& (abs_i(old(cam).forward.y as int) <= FORWARD_Y_EPS ==> *final(cam) == rc)
            &&& (abs_i(old(cam).forward.y as int) > FORWARD_Y_EPS ==> {
                &&& (ground_dist_sq(rc) <= limit * limit ==> *final(cam) == rc)
                &&& (ground_dist_sq(rc) > limit * limit ==> {
                    let d = sqrt_ceil(ground_dist_sq(rc));
                    &&& final(cam).position.x == rc.position.x + (divt(ground_x(rc) * limit, d)
                        - ground_x(rc))
                    &&& final(cam).position.z == rc.position.z + (divt(ground_z(rc) * limit, d)
                        - ground_z(rc))
                })
                &&& ground_dist_sq(*final(cam)) <= limit * limit
            })
        }),
{
    let max_radius = max_planet_radius(index);
    let limit = max_radius + RADIUS_MARGIN;
    let px0 = cam.position.x;
    let pz0 = cam.position.z;
    let py = if cam.position.y < MIN_HEIGHT {
        MIN_HEIGHT
    } else {
        cam.position.y
    };
    let ghost rc = raised(*cam);
    assert(rc.position.x == px0 && rc.position.y == py && rc.position.z == pz0);
    let mut px = px0;
    let mut pz = pz0;
    let fy = cam.forward.y;
    if fy > FORWARD_Y_EPS || fy < -FORWARD_Y_EPS {
        proof {
            lemma_divt_prod_le_den(
                -(py as int),
                SCALE as int,
                fy as int,
                CONSTRAIN_POS_LIMIT as int,
                SCALE as int,
                1001,
            );
        }
        let t = mul_div(-py, SCALE, fy);
        assert(t as int == ground_t(rc));
        assert(abs_i(t as int) <= 4_000_000_000_000_000_000);
        proof {
            lemma_divt_prod_le(
                cam.forward.x as int,
                t as int,
                SCALE as int,
                SCALE as int,
                4_000_000_000_000_000_000,
            );
            lemma_divt_prod_le(
                cam.forward.z as int,
                t as int,
                SCALE as int,
                SCALE as int,
                4_000_000_000_000_000_000,
            );
        }
        let gx = px0 + mul_div(cam.forward.x, t, SCALE);
        let gz = pz0 + mul_div(cam.forward.z, t, SCALE);
        assert(gx as int == ground_x(rc) && gz as int == ground_z(rc));
        assert(abs_i(gx as int) <= 4_005_000_000_000_000_000);
        assert(abs_i(gz as int) <= 4_005_000_000_000_000_000);
        assert({
            &&& 0 <= gx as int * gx as int
                <= 17_000_000_000_000_000_000_000_000_000_000_000_000int
            &&& 0 <= gz as int * gz as int
                <= 17_000_000_000_000_000_000_000_000_000_000_000_000int
        }) by (nonlinear_arith)
            requires
                abs_i(gx as int) <= 4_005_000_000_000_000_000,
                abs_i(gz as int) <= 4_005_000_000_000_000_000;
        assert(2 * 17_000_000_000_000_000_000_000_000_000_000_000_000int
            < 0x4000_0000_0000_0000_0000_0000_0000_0000int);
        let dsq = (gx as i128 * gx as i128 + gz as i128 * gz as i128) as u128;
        assert(dsq as int == ground_dist_sq(rc));
        assert(0 <= limit as int * limit as int <= 160_000_000_000_000_000_000_000_000int)
            by (nonlinear_arith)
            requires
                0 < limit as int <= 12_000_005_000_000;
        let lsq = (limit as u128) * (limit as u128);
        assert(lsq as int == (limit as int) * (limit as int));
        if dsq > lsq {
            let d128 = isqrt_up(dsq);
            assert(d128 > 0) by (nonlinear_arith)
                requires
                    dsq <= d128 * d128,
                    dsq > 0;
            assert(dsq <= 34_000_000_000_000_000_000_000_000_000_000_000_000u128);
            assert(d128 <= 6_000_000_000_000_000_000u128) by (nonlinear_arith)
                requires
                    d128 > 0,
                    (d128 - 1) * (d128 - 1) < dsq,
                    dsq <= 34_000_000_000_000_000_000_000_000_000_000_000_000u128;
            let d = d128 as i64;
            assert(abs_i(gx as int) <= d as int && abs_i(gz as int) <= d as int)
                by (nonlinear_arith)
                requires
                    d as int == d128 as int,
                    dsq <= d128 * d128,
                    dsq as int == gx as int * gx as int + gz as int * gz as int,
                    d128 > 0;
            proof {
                lemma_abs_mul(gx as int, limit as int);
                lemma_abs_mul(gz as int, limit as int);
                lemma_divt_mag(gx as int * limit, d as int);
                lemma_divt_mag(gz as int * limit, d as int);
                assert(abs_i(gx as int) * limit <= limit as int * (d as int)) by (nonlinear_arith)
                    requires
                        abs_i(gx as int) <= d as int,
                        limit >= 0;
                assert(abs_i(gz as int) * limit <= limit as int * (d as int)) by (nonlinear_arith)
                    requires
                        abs_i(gz as int) <= d as int,
                        limit >= 0;
                lemma_div_le_factor(abs_i(gx as int) * limit, limit as int, d as int);
                lemma_div_le_factor(abs_i(gz as int) * limit, limit as int, d as int);
            }
            let cx = mul_div(gx, limit, d);
            let cz = mul_div(gz, limit, d);
            px = px0 + (cx - gx);
            pz = pz0 + (cz - gz);
            proof {
                lemma_clamp_within(gx as int, gz as int, limit as int, d as int);
            }
        }
    }
    cam.position = Vec3Fp { x: px, y: py, z: pz };
    proof {
        if abs_i(old(cam).forward.y as int) > FORWARD_Y_EPS {
            assert(ground_t(*cam) == ground_t(rc));
        }
    }
}

} // verus!

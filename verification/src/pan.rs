//! Keyboard and edge-of-screen panning.
//!
//! Key and edge signals add into an integer intent vector with components
//! in `[-2, 2]`; a nonzero intent is normalized to a fixed-point unit
//! direction, scaled by pan speed, current zoom scale and elapsed time,
//! and applied along the camera's right and up axes.

use vstd::prelude::*;
use crate::fixed::{SCALE, abs_i, divt, mul_div, lemma_divt_prod_le};
use crate::vec3::{Vec2Fp, Vec3Fp};
use crate::camera::{CameraState, MAX_ZOOM, axis_shift};
use crate::frame::{HeldKeys, InputFrame, WindowSize, DT_LIMIT};

verus! {

/// Pan speed in world units per second (30.0).
pub const PAN_SPEED: i64 = 30_000_000;

/// Edge-scroll margin in screen units (20.0).
pub const EDGE_MARGIN: i64 = 20_000_000;

/// Cameras handed to the pan sit within this box, so the shift cannot
/// overflow.
pub const PAN_POS_LIMIT: i64 = 3_100_000_000_000_000;

/// Bound on the camera shift one pan tick can cause along any axis.
pub const PAN_SHIFT_LIMIT: i64 = 3_000_000_000;

/// Unit component of a diagonal direction (both intents equal in
/// magnitude): `1 / sqrt(2)` in fixed point.
pub const DIAG_UNIT: i64 = 707_106;

/// Smaller unit component of a one-against-two direction: `1 / sqrt(5)`.
pub const RT5_MINOR: i64 = 447_213;

/// Larger unit component of a one-against-two direction: `2 / sqrt(5)`.
pub const RT5_MAJOR: i64 = 894_427;

/// The squared norm of a nonzero pan direction lies within this of one.
pub const UNIT_TOL: i64 = 3_000_000;

/// Horizontal intent from the held keys: right minus left.
pub open spec fn key_intent_x(keys: HeldKeys) -> int {
    (if keys.right {
        1int
    } else {
        0int
    }) - (if keys.left {
        1int
    } else {
        0int
    })
}

/// Vertical intent from the held keys: up minus down.
pub open spec fn key_intent_y(keys: HeldKeys) -> int {
    (if keys.up {
        1int
    } else {
        0int
    }) - (if keys.down {
        1int
    } else {
        0int
    })
}

/// Horizontal intent from the cursor sitting in the edge margin.
pub open spec fn edge_intent_x(cursor: Option<Vec2Fp>, window: WindowSize) -> int {
    match cursor {
        Some(c) => if c.x < EDGE_MARGIN {
            -1int
        } else if c.x > window.width - EDGE_MARGIN {
            1int
        } else {
            0int
        },
        None => 0int,
    }
}

/// Vertical intent from the cursor sitting in the edge margin; the top
/// edge (small screen y) pans up.
pub open spec fn edge_intent_y(cursor: Option<Vec2Fp>, window: WindowSize) -> int {
    match cursor {
        Some(c) => if c.y < EDGE_MARGIN {
            1int
        } else if c.y > window.height - EDGE_MARGIN {
            -1int
        } else {
            0int
        },
        None => 0int,
    }
}

/// Total horizontal intent: key and edge signals stack additively.
pub open spec fn intent_x(input: InputFrame, window: WindowSize) -> int {
    key_intent_x(input.keys) + edge_intent_x(input.cursor, window)
}

/// Total vertical intent.
pub open spec fn intent_y(input: InputFrame, window: WindowSize) -> int {
    key_intent_y(input.keys) + edge_intent_y(input.cursor, window)
}

/// Unit-direction components for intent magnitudes `(ax, ay)`; the zero
/// intent stays zero (the guarded degenerate normalization).
pub open spec fn pan_unit(ax: int, ay: int) -> (int, int) {
    if ax == 0 && ay == 0 {
        (0int, 0int)
    } else if ay == 0 {
        (SCALE as int, 0int)
    } else if ax == 0 {
        (0int, SCALE as int)
    } else if ax == ay {
        (DIAG_UNIT as int, DIAG_UNIT as int)
    } else if ax < ay {
        (RT5_MINOR as int, RT5_MAJOR as int)
    } else {
        (RT5_MAJOR as int, RT5_MINOR as int)
    }
}

/// Fixed-point unit direction of an intent vector: the unit magnitudes
/// carry the intents' signs (a zero intent has a zero unit magnitude).
pub open spec fn pan_dir(ix: int, iy: int) -> (int, int) {
    let u = pan_unit(abs_i(ix), abs_i(iy));
    ((if ix < 0 {
        -u.0
    } else {
        u.0
    }), (if iy < 0 {
        -u.1
    } else {
        u.1
    }))
}

/// One component of the pan movement: direction component scaled by pan
/// speed, then by the zoom scale, then by the elapsed time.
pub open spec fn pan_move(dir: int, scale: int, dt: int) -> int {
    divt(
        divt(divt(dir * PAN_SPEED, SCALE as int) * scale, SCALE as int) * dt,
        SCALE as int,
    )
}

/// Pan law: every nonzero intent normalizes to a unit-length direction;
/// its squared norm lies within `UNIT_TOL` of one (in squared fixed
/// point), exactly one on the axes.
pub proof fn lemma_pan_dir_unit(ix: int, iy: int)
    requires
        -2 <= ix <= 2,
        -2 <= iy <= 2,
        !(ix == 0 && iy == 0),
    ensures
        ({
            let d = pan_dir(ix, iy);
            SCALE * SCALE - UNIT_TOL <= d.0 * d.0 + d.1 * d.1 <= SCALE * SCALE
        }),
{
    let u = pan_unit(abs_i(ix), abs_i(iy));
    let d = pan_dir(ix, iy);
    assert(d.0 * d.0 + d.1 * d.1 == u.0 * u.0 + u.1 * u.1) by (nonlinear_arith)
        requires
            d.0 == u.0 || d.0 == -u.0,
            d.1 == u.1 || d.1 == -u.1,
            (d.0 == 0 <==> u.0 == 0),
            (d.1 == 0 <==> u.1 == 0);
    assert(1_000_000int * 1_000_000 == 1_000_000_000_000) by (nonlinear_arith);
    assert(707_106int * 707_106 == 499_998_895_236) by (nonlinear_arith);
    assert(447_213int * 447_213 == 199_999_467_369) by (nonlinear_arith);
    assert(894_427int * 894_427 == 799_999_658_329) by (nonlinear_arith);
}

/// Pan law: held opposite keys cancel; with no edge signal the net
/// intent, and so the pan, is zero.
pub proof fn lemma_opposite_keys_cancel(input: InputFrame, window: WindowSize)
    requires
        input.keys.up == input.keys.down,
        input.keys.left == input.keys.right,
        edge_intent_x(input.cursor, window) == 0,
        edge_intent_y(input.cursor, window) == 0,
    ensures
        intent_x(input, window) == 0,
        intent_y(input, window) == 0,
        pan_dir(0, 0) == (0int, 0int),
{
}

/// Translates the camera along its right and up axes by the held-key and
/// edge-scroll intent, normalized to unit length, scaled by pan speed,
/// the current zoom scale, and the elapsed seconds `dt`.  A zero intent
/// leaves the camera untouched.
#[verifier::rlimit(60)]
pub fn pan_camera(cam: &mut CameraState, input: &InputFrame, window: &WindowSize, dt: i64)
    requires
        old(cam).wf(),
        window.wf(),
        input.wf(*window),
        0 <= dt <= DT_LIMIT,
        old(cam).position.in_range(PAN_POS_LIMIT as int),
    ensures
        final(cam).wf(),
        final(cam).same_frame(*old(cam)),
        final(cam).scale == old(cam).scale,
        final(cam).position.in_range(PAN_POS_LIMIT + PAN_SHIFT_LIMIT as int),
        ({
            let ix = intent_x(*input, *window);
            let iy = intent_y(*input, *window);
            let mx = pan_move(pan_dir(ix, iy).0, old(cam).scale as int, dt as int);
            let my = pan_move(pan_dir(ix, iy).1, old(cam).scale as int, dt as int);
            &&& final(cam).position.x == old(cam).position.x + axis_shift(
                old(cam).right.x as int,
                old(cam).up.x as int,
                mx,
                my,
            )
            &&& final(cam).position.y == old(cam).position.y + axis_shift(
                old(cam).right.y as int,
                old(cam).up.y as int,
                mx,
                my,
            )
            &&& final(cam).position.z == old(cam).position.z + axis_shift(
                old(cam).right.z as int,
                old(cam).up.z as int,
                mx,
                my,
            )
            &&& ((ix == 0 && iy == 0) ==> *final(cam) == *old(cam))
        }),
{
    // Accumulate the intent: keys first, then the edge margins.
    let mut ix: i64 = 0;
    let mut iy: i64 = 0;
    if input.keys.up {
        iy = iy + 1;
    }
    if input.keys.down {
        iy = iy - 1;
    }
    if input.keys.left {
        ix = ix - 1;
    }
    if input.keys.right {
        ix = ix + 1;
    }
    assert(ix as int == key_intent_x(input.keys) && iy as int == key_intent_y(input.keys));
    match input.cursor {
        Some(c) => {
            if c.x < EDGE_MARGIN {
                ix = ix - 1;
            } else if c.x > window.width - EDGE_MARGIN {
                ix = ix + 1;
            }
            if c.y < EDGE_MARGIN {
                iy = iy + 1;
            } else if c.y > window.height - EDGE_MARGIN {
                iy = iy - 1;
            }
        },
        None => {},
    }
    assert(ix as int == intent_x(*input, *window) && iy as int == intent_y(*input, *window));
    assert(-2 <= ix <= 2 && -2 <= iy <= 2);
    // Normalize to a fixed-point unit direction (zero stays zero).
    let ax = if ix < 0 {
        -ix
    } else {
        ix
    };
    let ay = if iy < 0 {
        -iy
    } else {
        iy
    };
    let ux: i64;
    let uy: i64;
    if ax == 0 && ay == 0 {
        ux = 0;
        uy = 0;
    } else if ay == 0 {
        ux = SCALE;
        uy = 0;
    } else if ax == 0 {
        ux = 0;
        uy = SCALE;
    } else if ax == ay {
        ux = DIAG_UNIT;
        uy = DIAG_UNIT;
    } else if ax < ay {
        ux = RT5_MINOR;
        uy = RT5_MAJOR;
    } else {
        ux = RT5_MAJOR;
        uy = RT5_MINOR;
    }
    let dx = if ix < 0 {
        -ux
    } else {
        ux
    };
    let dy = if iy < 0 {
        -uy
    } else {
        uy
    };
    assert(dx as int == pan_dir(ix as int, iy as int).0 && dy as int == pan_dir(
        ix as int,
        iy as int,
    ).1);
    // Movement: direction times pan speed, zoom scale, elapsed time.
    proof {
        lemma_divt_prod_le(dx as int, PAN_SPEED as int, SCALE as int, SCALE as int, PAN_SPEED as int);
        lemma_divt_prod_le(dy as int, PAN_SPEED as int, SCALE as int, SCALE as int, PAN_SPEED as int);
    }
    let sx = mul_div(dx, PAN_SPEED, SCALE);
    let sy = mul_div(dy, PAN_SPEED, SCALE);
    proof {
        lemma_divt_prod_le(sx as int, cam.scale as int, SCALE as int, PAN_SPEED as int, MAX_ZOOM as int);
        lemma_divt_prod_le(sy as int, cam.scale as int, SCALE as int, PAN_SPEED as int, MAX_ZOOM as int);
    }
    let tx = mul_div(sx, cam.scale, SCALE);
    let ty = mul_div(sy, cam.scale, SCALE);
    proof {
        lemma_divt_prod_le(tx as int, dt as int, SCALE as int, 150_000_000, DT_LIMIT as int);
        lemma_divt_prod_le(ty as int, dt as int, SCALE as int, 150_000_000, DT_LIMIT as int);
    }
    let mx = mul_div(tx, dt, SCALE);
    let my = mul_div(ty, dt, SCALE);
    assert(abs_i(mx as int) <= 1_500_000_000 && abs_i(my as int) <= 1_500_000_000);
    assert(mx as int == pan_move(dx as int, cam.scale as int, dt as int));
    assert(my as int == pan_move(dy as int, cam.scale as int, dt as int));
    // Resolve along the camera's own axes.
    proof {
        lemma_divt_prod_le(cam.right.x as int, mx as int, SCALE as int, SCALE as int, 1_500_000_000);
        lemma_divt_prod_le(cam.right.y as int, mx as int, SCALE as int, SCALE as int, 1_500_000_000);
        lemma_divt_prod_le(cam.right.z as int, mx as int, SCALE as int, SCALE as int, 1_500_000_000);
        lemma_divt_prod_le(cam.up.x as int, my as int, SCALE as int, SCALE as int, 1_500_000_000);
        lemma_divt_prod_le(cam.up.y as int, my as int, SCALE as int, SCALE as int, 1_500_000_000);
        lemma_divt_prod_le(cam.up.z as int, my as int, SCALE as int, SCALE as int, 1_500_000_000);
    }
    let px = cam.position.x + (mul_div(cam.right.x, mx, SCALE) + mul_div(cam.up.x, my, SCALE));
    let py = cam.position.y + (mul_div(cam.right.y, mx, SCALE) + mul_div(cam.up.y, my, SCALE));
    let pz = cam.position.z + (mul_div(cam.right.z, mx, SCALE) + mul_div(cam.up.z, my, SCALE));
    proof {
        // A zero intent propagates to a zero shift through every product.
        if ix == 0 && iy == 0 {
            crate::fixed::lemma_mul_sign(sx as int, cam.scale as int);
            crate::fixed::lemma_mul_sign(sy as int, cam.scale as int);
            crate::fixed::lemma_mul_sign(tx as int, dt as int);
            crate::fixed::lemma_mul_sign(ty as int, dt as int);
            assert(mx == 0 && my == 0);
            crate::fixed::lemma_mul_sign(cam.right.x as int, mx as int);
            crate::fixed::lemma_mul_sign(cam.right.y as int, mx as int);
            crate::fixed::lemma_mul_sign(cam.right.z as int, mx as int);
            crate::fixed::lemma_mul_sign(cam.up.x as int, my as int);
            crate::fixed::lemma_mul_sign(cam.up.y as int, my as int);
            crate::fixed::lemma_mul_sign(cam.up.z as int, my as int);
            assert(px == cam.position.x && py == cam.position.y && pz == cam.position.z);
        }
    }
    cam.position = Vec3Fp { x: px, y: py, z: pz };
}

} // verus!

//! Scroll-wheel zoom anchored at the cursor.
//!
//! Each scroll event retargets the orthographic scale (clamped to
//! `[MIN_ZOOM, MAX_ZOOM]`, with a jitter guard for tiny changes) and
//! shifts the camera so the world point under the cursor stays put.  The
//! whole update is a fold of per-event steps over the scroll sequence;
//! the specification functions below define that fold exactly.

use vstd::prelude::*;
use crate::fixed::{
    SCALE, abs_i, clamp_i, clamp64, divt, mul_div, lemma_divt_prod_le, lemma_div_le_factor,
    lemma_div_ge_factor, lemma_divt_neg,
};
use crate::vec3::{Vec2Fp, Vec3Fp};
use crate::camera::{CameraState, ScalingMode, MIN_ZOOM, MAX_ZOOM, VIEW_LIMIT, axis_shift};
use crate::frame::{InputFrame, WindowSize, SCROLL_LIMIT, SCROLL_EVENTS_MAX};

verus! {

/// Scroll-to-scale factor: zoom speed 0.5 times scroll attenuation 0.2.
pub const ZOOM_STEP: i64 = 100_000;

/// Scale changes smaller than this (1e-5) are skipped as jitter.
pub const ZOOM_EPS: i64 = 10;

/// Cameras handed to the zoom sit within this box (a billion world
/// units), so the per-event shifts cannot overflow.
pub const POS_LIMIT: i64 = 1_000_000_000_000_000;

/// Bound on the per-unit-of-scale shift base along any axis.
pub const BASE_LIMIT: i64 = 100_000_000_000;

/// Bound on the camera shift a single scroll event can cause.
pub const SHIFT_LIMIT: i64 = 500_000_000_000;

/// Window aspect ratio (width over height) in fixed point.
pub open spec fn aspect_of(window: WindowSize) -> int {
    divt(window.width * SCALE, window.height as int)
}

/// Visible world height under the given scaling mode.
pub open spec fn view_height_of(mode: ScalingMode, window: WindowSize) -> int {
    match mode {
        ScalingMode::FixedVertical { viewport_height } => viewport_height as int,
        ScalingMode::FixedHorizontal { viewport_width } => divt(
            viewport_width * SCALE,
            aspect_of(window),
        ),
    }
}

/// Visible world width: height times aspect ratio.
pub open spec fn view_width_of(mode: ScalingMode, window: WindowSize) -> int {
    divt(view_height_of(mode, window) * aspect_of(window), SCALE as int)
}

/// Screen coordinate in `[0, extent]` mapped to `[-SCALE, SCALE]`.
pub open spec fn ndc_of(c: int, extent: int) -> int {
    divt(c * 2 * SCALE, extent) - SCALE
}

/// Cursor's world offset from the screen centre along the right axis.
pub open spec fn offset_x_of(cursor: Vec2Fp, mode: ScalingMode, window: WindowSize) -> int {
    divt(
        ndc_of(cursor.x as int, window.width as int) * divt(view_width_of(mode, window), 2),
        SCALE as int,
    )
}

/// Cursor's world offset along the up axis; screen y grows downward,
/// world y upward, hence the negation.
pub open spec fn offset_y_of(cursor: Vec2Fp, mode: ScalingMode, window: WindowSize) -> int {
    divt(
        -ndc_of(cursor.y as int, window.height as int) * divt(view_height_of(mode, window), 2),
        SCALE as int,
    )
}

/// The shift base along the world x axis, for a given camera and cursor.
pub open spec fn zoom_base_x(cam: CameraState, cursor: Vec2Fp, window: WindowSize) -> int {
    axis_shift(
        cam.right.x as int,
        cam.up.x as int,
        offset_x_of(cursor, cam.scaling_mode, window),
        offset_y_of(cursor, cam.scaling_mode, window),
    )
}

/// The shift base along the world y axis.
pub open spec fn zoom_base_y(cam: CameraState, cursor: Vec2Fp, window: WindowSize) -> int {
    axis_shift(
        cam.right.y as int,
        cam.up.y as int,
        offset_x_of(cursor, cam.scaling_mode, window),
        offset_y_of(cursor, cam.scaling_mode, window),
    )
}

/// The shift base along the world z axis.
pub open spec fn zoom_base_z(cam: CameraState, cursor: Vec2Fp, window: WindowSize) -> int {
    axis_shift(
        cam.right.z as int,
        cam.up.z as int,
        offset_x_of(cursor, cam.scaling_mode, window),
        offset_y_of(cursor, cam.scaling_mode, window),
    )
}

/// Scale a single scroll event aims at, before the jitter guard.
pub open spec fn zoom_target(s: int, d: int) -> int {
    clamp_i(s - divt(d * ZOOM_STEP, SCALE as int), MIN_ZOOM as int, MAX_ZOOM as int)
}

/// Whether the jitter guard skips the event entirely.
pub open spec fn zoom_skips(s: int, d: int) -> bool {
    abs_i(s - zoom_target(s, d)) < ZOOM_EPS
}

/// Scale after one scroll event.
pub open spec fn zoom_step_scale(s: int, d: int) -> int {
    if zoom_skips(s, d) {
        s
    } else {
        zoom_target(s, d)
    }
}

/// One position component after one scroll event with shift base `base`.
pub open spec fn zoom_step_pos(s: int, d: int, p: int, base: int) -> int {
    if zoom_skips(s, d) {
        p
    } else {
        p + divt(base * (s - zoom_target(s, d)), SCALE as int)
    }
}

/// Scale after a whole scroll sequence, events in order.
pub open spec fn zoom_scale_after(s: int, ds: Seq<i64>) -> int
    decreases ds.len(),
{
    if ds.len() == 0 {
        s
    } else {
        zoom_scale_after(zoom_step_scale(s, ds[0] as int), ds.skip(1))
    }
}

/// One position component after a whole scroll sequence.
pub open spec fn zoom_pos_after(s: int, p: int, base: int, ds: Seq<i64>) -> int
    decreases ds.len(),
{
    if ds.len() == 0 {
        p
    } else {
        zoom_pos_after(
            zoom_step_scale(s, ds[0] as int),
            zoom_step_pos(s, ds[0] as int, p, base),
            base,
            ds.skip(1),
        )
    }
}

/// Zoom law: the scale stays within `[MIN_ZOOM, MAX_ZOOM]` after any
/// scroll sequence, whatever the deltas' magnitudes or signs.
pub proof fn lemma_zoom_scale_bounded(s: int, ds: Seq<i64>)
    requires
        MIN_ZOOM <= s <= MAX_ZOOM,
    ensures
        MIN_ZOOM <= zoom_scale_after(s, ds) <= MAX_ZOOM,
    decreases ds.len(),
{
    if ds.len() > 0 {
        lemma_zoom_scale_bounded(zoom_step_scale(s, ds[0] as int), ds.skip(1));
    }
}

/// Zoom law: a sequence of zero-delta scroll events changes neither the
/// scale nor the position component.
pub proof fn lemma_zoom_zero_deltas(s: int, p: int, base: int, ds: Seq<i64>)
    requires
        MIN_ZOOM <= s <= MAX_ZOOM,
        forall|i: int| 0 <= i < ds.len() ==> ds[i] == 0,
    ensures
        zoom_scale_after(s, ds) == s,
        zoom_pos_after(s, p, base, ds) == p,
    decreases ds.len(),
{
    if ds.len() > 0 {
        assert(ds[0] == 0);
        assert(zoom_step_scale(s, 0) == s);
        assert(zoom_step_pos(s, 0, p, base) == p);
        assert(forall|i: int| 0 <= i < ds.skip(1).len() ==> ds.skip(1)[i] == 0);
        lemma_zoom_zero_deltas(s, p, base, ds.skip(1));
    }
}

/// Zoom law: scrolling by `d` and then by `-d` restores scale and
/// position component exactly, provided the first step's target does not
/// hit a clamp boundary.
pub proof fn lemma_zoom_round_trip(s: int, p: int, base: int, d: i64)
    requires
        MIN_ZOOM <= s <= MAX_ZOOM,
        MIN_ZOOM <= s - divt(d * ZOOM_STEP, SCALE as int) <= MAX_ZOOM,
        d > i64::MIN,
    ensures
        zoom_scale_after(s, seq![d, (-d) as i64]) == s,
        zoom_pos_after(s, p, base, seq![d, (-d) as i64]) == p,
{
    let ds = seq![d, (-d) as i64];
    let q = divt(d as int * ZOOM_STEP, SCALE as int);
    assert((-d) as int * ZOOM_STEP == -(d as int * ZOOM_STEP));
    lemma_divt_neg(d as int * ZOOM_STEP, SCALE as int);
    assert(ds.skip(1) =~= seq![(-d) as i64]);
    assert(seq![(-d) as i64].skip(1) =~= Seq::<i64>::empty());
    assert(ds[0] == d && ds.skip(1)[0] == (-d) as i64);
    let s1 = zoom_step_scale(s, d as int);
    let p1 = zoom_step_pos(s, d as int, p, base);
    let s2 = zoom_step_scale(s1, (-d) as int);
    let p2 = zoom_step_pos(s1, (-d) as int, p1, base);
    assert(zoom_scale_after(s, ds) == zoom_scale_after(s1, ds.skip(1)));
    assert(zoom_scale_after(s1, ds.skip(1)) == zoom_scale_after(s2, Seq::<i64>::empty()));
    assert(zoom_pos_after(s, p, base, ds) == zoom_pos_after(s1, p1, base, ds.skip(1)));
    assert(zoom_pos_after(s1, p1, base, ds.skip(1)) == zoom_pos_after(
        s2,
        p2,
        base,
        Seq::<i64>::empty(),
    ));
    if abs_i(q) < ZOOM_EPS {
        // Both events fall to the jitter guard.
        assert(zoom_step_scale(s, d as int) == s);
        assert(zoom_step_pos(s, d as int, p, base) == p);
        assert(zoom_skips(s, (-d) as int));
    } else {
        assert(zoom_target(s, d as int) == s - q);
        assert(s1 == s - q);
        let shift = divt(base * q, SCALE as int);
        assert(base * (s - (s - q)) == base * q);
        assert(p1 == p + shift);
        // Second event: target is exactly the original scale.
        assert(zoom_target(s1, (-d) as int) == s);
        assert(!zoom_skips(s1, (-d) as int));
        assert(base * (s1 - s) == -(base * q)) by (nonlinear_arith)
            requires
                s1 == s - q;
        lemma_divt_neg(base * q, SCALE as int);
        assert(p2 == p);
    }
}

/// Applies every scroll event of this tick to the camera: per event, the
/// scale moves toward its clamped target and the camera shifts along its
/// right/up axes so the world point under the cursor stays fixed.  With
/// the cursor outside the window, the whole tick is a no-op.
pub fn zoom_camera(cam: &mut CameraState, input: &InputFrame, window: &WindowSize)
    requires
        old(cam).wf(),
        window.wf(),
        input.wf(*window),
        old(cam).position.in_range(POS_LIMIT as int),
    ensures
        final(cam).wf(),
        final(cam).same_frame(*old(cam)),
        final(cam).position.in_range(
            POS_LIMIT + SCROLL_EVENTS_MAX as int * SHIFT_LIMIT,
        ),
        input.cursor is None ==> *final(cam) == *old(cam),
        input.cursor matches Some(cur) ==> {
            &&& final(cam).scale == zoom_scale_after(old(cam).scale as int, input.scroll@)
            &&& final(cam).position.x == zoom_pos_after(
                old(cam).scale as int,
                old(cam).position.x as int,
                zoom_base_x(*old(cam), cur, *window),
                input.scroll@,
            )
            &&& final(cam).position.y == zoom_pos_after(
                old(cam).scale as int,
                old(cam).position.y as int,
                zoom_base_y(*old(cam), cur, *window),
                input.scroll@,
            )
            &&& final(cam).position.z == zoom_pos_after(
                old(cam).scale as int,
                old(cam).position.z as int,
                zoom_base_z(*old(cam), cur, *window),
                input.scroll@,
            )
        },
{
    let cursor = match input.cursor {
        Some(c) => c,
        None => {
            return ;
        },
    };
    // Aspect ratio lies in [SCALE/100, 100*SCALE].
    proof {
        lemma_div_le_factor(
            window.width as int * SCALE,
            100 * SCALE,
            window.height as int,
        );
        lemma_div_ge_factor(window.width as int * SCALE, 10_000, window.height as int);
    }
    let aspect = mul_div(window.width, SCALE, window.height);
    // Visible extents; in either mode both stay below 1e11 in magnitude.
    let vh: i64;
    let vw: i64;
    match cam.scaling_mode {
        ScalingMode::FixedVertical { viewport_height } => {
            vh = viewport_height;
            proof {
                lemma_divt_prod_le(
                    vh as int,
                    aspect as int,
                    SCALE as int,
                    VIEW_LIMIT as int,
                    100_000_000,
                );
            }
            vw = mul_div(vh, aspect, SCALE);
            assert({
                &&& vh as int == view_height_of(cam.scaling_mode, *window)
                &&& vw as int == view_width_of(cam.scaling_mode, *window)
                &&& abs_i(vh as int) <= 100_000_000_000
                &&& abs_i(vw as int) <= 100_000_000_000
            });
        },
        ScalingMode::FixedHorizontal { viewport_width } => {
            proof {
                lemma_div_le_factor(
                    viewport_width as int * SCALE,
                    100_000_000_000,
                    aspect as int,
                );
            }
            vh = mul_div(viewport_width, SCALE, aspect);
            proof {
                lemma_divt_prod_le(
                    vh as int,
                    aspect as int,
                    SCALE as int,
                    100_000_000_000,
                    100_000_000,
                );
                lemma_view_width_shrinks(viewport_width as int, aspect as int);
            }
            vw = mul_div(vh, aspect, SCALE);
            assert({
                &&& vh as int == view_height_of(cam.scaling_mode, *window)
                &&& vw as int == view_width_of(cam.scaling_mode, *window)
                &&& abs_i(vh as int) <= 100_000_000_000
                &&& abs_i(vw as int) <= 100_000_000_000
            });
        },
    }
    // NDC coordinates lie in [-SCALE, SCALE].
    proof {
        lemma_div_le_factor(cursor.x as int * 2 * SCALE, 2 * SCALE, window.width as int);
        lemma_div_le_factor(cursor.y as int * 2 * SCALE, 2 * SCALE, window.height as int);
    }
    let ndc_x = mul_div(cursor.x, 2_000_000, window.width) - SCALE;
    let ndc_y = -(mul_div(cursor.y, 2_000_000, window.height) - SCALE);
    // Half extents and cursor offsets; both offsets stay below 5e10.
    proof {
        lemma_divt_prod_le(vw as int, 1, 2, 100_000_000_000, 1);
        lemma_divt_prod_le(vh as int, 1, 2, 100_000_000_000, 1);
    }
    let hw = mul_div(vw, 1, 2);
    let hh = mul_div(vh, 1, 2);
    proof {
        lemma_divt_prod_le(ndc_x as int, hw as int, SCALE as int, SCALE as int, 50_000_000_000);
        lemma_divt_prod_le(ndc_y as int, hh as int, SCALE as int, SCALE as int, 50_000_000_000);
    }
    let ox = mul_div(ndc_x, hw, SCALE);
    let oy = mul_div(ndc_y, hh, SCALE);
    assert(abs_i(ox as int) <= 50_000_000_000 && abs_i(oy as int) <= 50_000_000_000);
    // Shift bases along the three world axes.
    proof {
        lemma_divt_prod_le(cam.right.x as int, ox as int, SCALE as int, SCALE as int, 50_000_000_000);
        lemma_divt_prod_le(cam.right.y as int, ox as int, SCALE as int, SCALE as int, 50_000_000_000);
        lemma_divt_prod_le(cam.right.z as int, ox as int, SCALE as int, SCALE as int, 50_000_000_000);
        lemma_divt_prod_le(cam.up.x as int, oy as int, SCALE as int, SCALE as int, 50_000_000_000);
        lemma_divt_prod_le(cam.up.y as int, oy as int, SCALE as int, SCALE as int, 50_000_000_000);
        lemma_divt_prod_le(cam.up.z as int, oy as int, SCALE as int, SCALE as int, 50_000_000_000);
    }
    let bx = mul_div(cam.right.x, ox, SCALE) + mul_div(cam.up.x, oy, SCALE);
    let by = mul_div(cam.right.y, ox, SCALE) + mul_div(cam.up.y, oy, SCALE);
    let bz = mul_div(cam.right.z, ox, SCALE) + mul_div(cam.up.z, oy, SCALE);
    assert({
        &&& bx as int == zoom_base_x(*cam, cursor, *window)
        &&& by as int == zoom_base_y(*cam, cursor, *window)
        &&& bz as int == zoom_base_z(*cam, cursor, *window)
        &&& abs_i(bx as int) <= BASE_LIMIT
        &&& abs_i(by as int) <= BASE_LIMIT
        &&& abs_i(bz as int) <= BASE_LIMIT
    });
    // Fold the scroll events, in order.
    let ghost ds = input.scroll@;
    let ghost s0 = cam.scale as int;
    let ghost px0 = cam.position.x as int;
    let ghost py0 = cam.position.y as int;
    let ghost pz0 = cam.position.z as int;
    let mut scale = cam.scale;
    let mut px = cam.position.x;
    let mut py = cam.position.y;
    let mut pz = cam.position.z;
    let n = input.scroll.len();
    let mut i: usize = 0;
    proof {
        assert(ds.skip(0) =~= ds);
    }
    while i < n
        invariant
            n == ds.len(),
            ds == input.scroll@,
            input.wf(*window),
            0 <= i <= n,
            MIN_ZOOM <= scale <= MAX_ZOOM,
            abs_i(bx as int) <= BASE_LIMIT,
            abs_i(by as int) <= BASE_LIMIT,
            abs_i(bz as int) <= BASE_LIMIT,
            abs_i(px as int) <= POS_LIMIT + i as int * SHIFT_LIMIT,
            abs_i(py as int) <= POS_LIMIT + i as int * SHIFT_LIMIT,
            abs_i(pz as int) <= POS_LIMIT + i as int * SHIFT_LIMIT,
            zoom_scale_after(scale as int, ds.skip(i as int)) == zoom_scale_after(s0, ds),
            zoom_pos_after(scale as int, px as int, bx as int, ds.skip(i as int))
                == zoom_pos_after(s0, px0, bx as int, ds),
            zoom_pos_after(scale as int, py as int, by as int, ds.skip(i as int))
                == zoom_pos_after(s0, py0, by as int, ds),
            zoom_pos_after(scale as int, pz as int, bz as int, ds.skip(i as int))
                == zoom_pos_after(s0, pz0, bz as int, ds),
        decreases n - i,
    {
        let d = input.scroll[i];
        proof {
            lemma_divt_prod_le(d as int, ZOOM_STEP as int, SCALE as int, SCROLL_LIMIT as int, ZOOM_STEP as int);
        }
        let q = mul_div(d, ZOOM_STEP, SCALE);
        let t = clamp64(scale - q, MIN_ZOOM, MAX_ZOOM);
        let diff = scale - t;
        proof {
            assert(t as int == zoom_target(scale as int, d as int));
            assert(ds.skip(i as int).skip(1) =~= ds.skip(i as int + 1));
        }
        if diff >= ZOOM_EPS || diff <= -ZOOM_EPS {
            proof {
                lemma_divt_prod_le(bx as int, diff as int, SCALE as int, BASE_LIMIT as int, 4_800_000);
                lemma_divt_prod_le(by as int, diff as int, SCALE as int, BASE_LIMIT as int, 4_800_000);
                lemma_divt_prod_le(bz as int, diff as int, SCALE as int, BASE_LIMIT as int, 4_800_000);
            }
            px = px + mul_div(bx, diff, SCALE);
            py = py + mul_div(by, diff, SCALE);
            pz = pz + mul_div(bz, diff, SCALE);
            scale = t;
        }
        i = i + 1;
    }
    proof {
        assert(ds.skip(n as int) =~= Seq::<i64>::empty());
    }
    cam.scale = scale;
    cam.position = Vec3Fp { x: px, y: py, z: pz };
}

/// Dividing the fixed horizontal extent by the aspect ratio and
/// multiplying back cannot grow it: the derived view width stays within
/// the configured viewport width.
proof fn lemma_view_width_shrinks(vw: int, aspect: int)
    requires
        0 <= vw,
        0 < aspect,
    ensures
        0 <= divt(divt(vw * SCALE, aspect) * aspect, SCALE as int) <= vw,
{
    let h = divt(vw * SCALE, aspect);
    vstd::arithmetic::div_mod::lemma_div_pos_is_pos(vw * SCALE, aspect);
    assert(vw * SCALE >= 0) by (nonlinear_arith)
        requires
            vw >= 0;
    assert(h == (vw * SCALE) / aspect);
    vstd::arithmetic::div_mod::lemma_fundamental_div_mod(vw * SCALE, aspect);
    vstd::arithmetic::div_mod::lemma_mod_bound(vw * SCALE, aspect);
    assert(h * aspect <= vw * SCALE) by (nonlinear_arith)
        requires
            vw * SCALE == aspect * h + (vw * SCALE) % aspect,
            (vw * SCALE) % aspect >= 0;
    vstd::arithmetic::mul::lemma_mul_nonnegative(h, aspect);
    lemma_div_le_factor(h * aspect, vw, SCALE as int);
}

} // verus!

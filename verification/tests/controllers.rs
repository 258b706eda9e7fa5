use crystal_space::camera::{CameraState, ScalingMode, MAX_ZOOM, MIN_ZOOM};
use crystal_space::frame::{HeldKeys, InputFrame, WindowSize};
use crystal_space::fixed::SCALE;
use crystal_space::vec3::{Vec2Fp, Vec3Fp};
use crystal_space::zoom::zoom_camera;
use crystal_space::pan::pan_camera;

fn no_keys() -> HeldKeys {
    HeldKeys { up: false, down: false, left: false, right: false }
}

fn test_window() -> WindowSize {
    // A 1000 x 1000 screen-unit window.
    WindowSize { width: 1_000_000_000, height: 1_000_000_000 }
}

fn test_camera() -> CameraState {
    CameraState {
        position: Vec3Fp { x: 20_000_000, y: 20_000_000, z: 20_000_000 },
        right: Vec3Fp { x: SCALE, y: 0, z: 0 },
        up: Vec3Fp { x: 0, y: SCALE, z: 0 },
        forward: Vec3Fp { x: 0, y: -SCALE, z: 0 },
        scale: SCALE,
        scaling_mode: ScalingMode::FixedVertical { viewport_height: 25_000_000 },
    }
}

fn centered_input(scroll: Vec<i64>) -> InputFrame {
    InputFrame {
        cursor: Some(Vec2Fp { x: 500_000_000, y: 500_000_000 }),
        scroll,
        keys: no_keys(),
    }
}

#[test]
fn zoom_scroll_scenario() {
    // delta = +5 at zoom speed 0.5 and attenuation 0.2 from scale 1.0:
    // target = clamp(1.0 - 5 * 0.5 * 0.2, 0.2, 5.0) = 0.5.
    let mut cam = test_camera();
    let input = centered_input(vec![5_000_000]);
    zoom_camera(&mut cam, &input, &test_window());
    assert_eq!(cam.scale, 500_000);
    // The cursor sat at the screen centre, so the camera did not move.
    assert_eq!(cam.position, test_camera().position);
}

#[test]
fn zoom_zero_deltas_change_nothing() {
    let mut cam = test_camera();
    let before = cam;
    let input = centered_input(vec![0, 0, 0, 0]);
    zoom_camera(&mut cam, &input, &test_window());
    assert_eq!(cam, before);
}

#[test]
fn zoom_scale_stays_clamped() {
    let mut cam = test_camera();
    let input = centered_input(vec![
        1_000_000_000_000,
        -1_000_000_000_000,
        -1_000_000_000_000,
        7_000_000,
        -999_999_999_999,
    ]);
    zoom_camera(&mut cam, &input, &test_window());
    assert!(MIN_ZOOM <= cam.scale && cam.scale <= MAX_ZOOM);
}

#[test]
fn zoom_round_trip_restores_camera() {
    let mut cam = test_camera();
    cam.scale = 2_000_000;
    let before = cam;
    // An off-centre cursor, so each event also shifts the camera.
    let input = InputFrame {
        cursor: Some(Vec2Fp { x: 250_000_000, y: 125_000_000 }),
        scroll: vec![3_000_000, -3_000_000],
        keys: no_keys(),
    };
    zoom_camera(&mut cam, &input, &test_window());
    assert_eq!(cam, before);
}

#[test]
fn zoom_moves_toward_offcenter_cursor() {
    let mut cam = test_camera();
    let before = cam;
    let input = InputFrame {
        cursor: Some(Vec2Fp { x: 250_000_000, y: 500_000_000 }),
        scroll: vec![1_000_000],
        keys: no_keys(),
    };
    zoom_camera(&mut cam, &input, &test_window());
    assert!(cam.scale < before.scale);
    assert_ne!(cam.position.x, before.position.x);
}

#[test]
fn zoom_without_cursor_is_noop() {
    let mut cam = test_camera();
    let before = cam;
    let input = InputFrame { cursor: None, scroll: vec![5_000_000], keys: no_keys() };
    zoom_camera(&mut cam, &input, &test_window());
    assert_eq!(cam, before);
}

#[test]
fn pan_opposite_keys_cancel() {
    let mut cam = test_camera();
    let before = cam;
    let input = InputFrame {
        cursor: None,
        scroll: vec![],
        keys: HeldKeys { up: true, down: true, left: true, right: true },
    };
    pan_camera(&mut cam, &input, &test_window(), 500_000);
    assert_eq!(cam, before);
}

#[test]
fn pan_single_key_moves_up_axis() {
    let mut cam = test_camera();
    let before = cam;
    let input = InputFrame {
        cursor: None,
        scroll: vec![],
        keys: HeldKeys { up: true, down: false, left: false, right: false },
    };
    // 30 units/s * scale 1.0 * 0.5 s = 15 units along the up axis.
    pan_camera(&mut cam, &input, &test_window(), 500_000);
    assert_eq!(cam.position.y, before.position.y + 15_000_000);
    assert_eq!(cam.position.x, before.position.x);
    assert_eq!(cam.position.z, before.position.z);
}

#[test]
fn pan_diagonal_uses_unit_direction() {
    let mut cam = test_camera();
    let before = cam;
    let input = InputFrame {
        cursor: None,
        scroll: vec![],
        keys: HeldKeys { up: true, down: false, left: false, right: true },
    };
    // 30 * (1/sqrt 2) * 0.5 = 10.60659 units on each axis.
    pan_camera(&mut cam, &input, &test_window(), 500_000);
    assert_eq!(cam.position.x, before.position.x + 10_606_590);
    assert_eq!(cam.position.y, before.position.y + 10_606_590);
}

#[test]
fn pan_edge_scroll_left_margin() {
    let mut cam = test_camera();
    let before = cam;
    // Cursor within 20 screen units of the left edge, vertically interior.
    let input = InputFrame {
        cursor: Some(Vec2Fp { x: 10_000_000, y: 500_000_000 }),
        scroll: vec![],
        keys: no_keys(),
    };
    pan_camera(&mut cam, &input, &test_window(), 500_000);
    assert_eq!(cam.position.x, before.position.x - 15_000_000);
    assert_eq!(cam.position.y, before.position.y);
}

#[test]
fn pan_unit_direction_norms() {
    // Squared norms of the three nonzero direction shapes sit within
    // 3e-6 of one (exactly one on the axes).
    let tol: i128 = 3_000_000;
    let one: i128 = 1_000_000_000_000;
    let axis: i128 = 1_000_000;
    let diag: i128 = 707_106;
    let minor: i128 = 447_213;
    let major: i128 = 894_427;
    assert_eq!(axis * axis, one);
    assert!(one - tol <= 2 * diag * diag && 2 * diag * diag <= one);
    assert!(one - tol <= minor * minor + major * major && minor * minor + major * major <= one);
}

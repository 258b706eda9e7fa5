use crystal_space::camera::{CameraState, ScalingMode, MAX_ZOOM, MIN_ZOOM};
use crystal_space::fixed::{clamp64, emod64, isqrt, isqrt_up, mul_div, SCALE};
use crystal_space::frame::{HeldKeys, InputFrame, WindowSize};
use crystal_space::bounds::MIN_HEIGHT;
use crystal_space::pipeline::tick;
use crystal_space::scene::{Body, Rotator, SceneArena, SceneNode};
use crystal_space::trig::{cos64, sin64, HALF_PI_FP, PI_FP};
use crystal_space::vec3::{Vec2Fp, Vec3Fp};

#[test]
fn truncating_product_quotient() {
    assert_eq!(mul_div(7, 3, 2), 10);
    assert_eq!(mul_div(-7, 3, 2), -10);
    assert_eq!(mul_div(7, -3, 2), -10);
    assert_eq!(mul_div(-7, -3, 2), 10);
    assert_eq!(mul_div(7, 3, -2), -10);
    assert_eq!(mul_div(5_000_000, 100_000, SCALE), 500_000);
}

#[test]
fn euclidean_remainder() {
    assert_eq!(emod64(7, 5), 2);
    assert_eq!(emod64(-1, 5), 4);
    assert_eq!(emod64(-5, 5), 0);
    assert_eq!(emod64(-6, 5), 4);
    assert_eq!(emod64(0, 5), 0);
}

#[test]
fn square_roots() {
    assert_eq!(isqrt(0), 0);
    assert_eq!(isqrt(24), 4);
    assert_eq!(isqrt(25), 5);
    assert_eq!(isqrt_up(24), 5);
    assert_eq!(isqrt_up(25), 5);
    assert_eq!(isqrt(2_500_000_000_000_000u128), 50_000_000);
}

#[test]
fn clamping() {
    assert_eq!(clamp64(1, 2, 5), 2);
    assert_eq!(clamp64(7, 2, 5), 5);
    assert_eq!(clamp64(3, 2, 5), 3);
}

#[test]
fn circular_functions_near_unit() {
    assert_eq!(sin64(0), 0);
    // The rational quarter-wave sine is within 2e-3 of the real sine and
    // exactly zero at zero and half a turn.
    assert!((sin64(HALF_PI_FP) - SCALE).abs() <= 10);
    assert!((cos64(0) - SCALE).abs() <= 10);
    assert_eq!(sin64(PI_FP), 0);
    assert!(sin64(PI_FP + HALF_PI_FP) < -900_000);
    let s = sin64(500_000) as i128;
    let c = cos64(500_000) as i128;
    let one: i128 = 1_000_000_000_000;
    // Pythagoras holds to about 4e-3 in squared fixed point.
    assert!((s * s + c * c - one).abs() <= 8_000_000_000);
}

#[test]
fn pipeline_tick_upholds_frame_guarantees() {
    let mut arena = SceneArena {
        nodes: vec![
            SceneNode {
                parent: None,
                offset: Vec3Fp { x: 0, y: 0, z: 0 },
                yaw: 0,
                rotator: Some(Rotator { speed: 400_000 }),
                body: Some(Body::Star),
            },
            SceneNode {
                parent: Some(0),
                offset: Vec3Fp { x: 30_000_000, y: 0, z: 0 },
                yaw: 0,
                rotator: None,
                body: Some(Body::Planet),
            },
        ],
    };
    let mut cam = CameraState {
        position: Vec3Fp { x: 300_000_000, y: 2_000_000, z: -100_000_000 },
        right: Vec3Fp { x: SCALE, y: 0, z: 0 },
        up: Vec3Fp { x: 0, y: 0, z: -SCALE },
        forward: Vec3Fp { x: 0, y: -SCALE, z: 0 },
        scale: SCALE,
        scaling_mode: ScalingMode::FixedVertical { viewport_height: 25_000_000 },
    };
    let input = InputFrame {
        cursor: Some(Vec2Fp { x: 100_000_000, y: 900_000_000 }),
        scroll: vec![2_000_000, -1_000_000],
        keys: HeldKeys { up: true, down: false, left: false, right: true },
    };
    let window = WindowSize { width: 1_000_000_000, height: 1_000_000_000 };
    let index = tick(&mut arena, &mut cam, &input, &window, 16_000);
    // The orbit advanced: 0.4 rad/s * 0.016 s = 6400 micro-radians.
    assert_eq!(arena.nodes[0].yaw, 6_400);
    assert_eq!(index.planets.len(), 1);
    // Frame guarantees: clamped zoom, minimum height, bounded ground point.
    assert!(MIN_ZOOM <= cam.scale && cam.scale <= MAX_ZOOM);
    assert!(cam.position.y >= MIN_HEIGHT);
    let t = -(cam.position.y as i128) * 1_000_000 / (cam.forward.y as i128);
    let gx = cam.position.x as i128 + (cam.forward.x as i128) * t / 1_000_000;
    let gz = cam.position.z as i128 + (cam.forward.z as i128) * t / 1_000_000;
    let limit = (crystal_space::bounds::max_planet_radius(&index) + 5_000_000) as i128;
    assert!(gx * gx + gz * gz <= limit * limit);
}

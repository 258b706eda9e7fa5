use crystal_space::bounds::{constrain_camera, max_planet_radius, MIN_HEIGHT, RADIUS_FLOOR};
use crystal_space::camera::{CameraState, ScalingMode};
use crystal_space::fixed::SCALE;
use crystal_space::scene::{
    rotate_objects, Body, Rotator, SceneArena, SceneIndex, SceneNode, node_world_pos,
};
use crystal_space::trig::{HALF_PI_FP, PI_FP};
use crystal_space::vec3::Vec3Fp;

fn camera_looking_down(x: i64, y: i64, z: i64) -> CameraState {
    CameraState {
        position: Vec3Fp { x, y, z },
        right: Vec3Fp { x: SCALE, y: 0, z: 0 },
        up: Vec3Fp { x: 0, y: 0, z: -SCALE },
        forward: Vec3Fp { x: 0, y: -SCALE, z: 0 },
        scale: SCALE,
        scaling_mode: ScalingMode::FixedVertical { viewport_height: 25_000_000 },
    }
}

fn single_planet_index(x: i64, y: i64, z: i64) -> SceneIndex {
    SceneIndex { planets: vec![Vec3Fp { x, y, z }] }
}

#[test]
fn orbit_half_second_at_pi_per_second() {
    // speed = pi radians/second, dt = 0.5 s: exactly a quarter turn.
    let mut arena = SceneArena {
        nodes: vec![
            SceneNode {
                parent: None,
                offset: Vec3Fp { x: 0, y: 0, z: 0 },
                yaw: 0,
                rotator: Some(Rotator { speed: PI_FP }),
                body: None,
            },
        ],
    };
    rotate_objects(&mut arena, 500_000);
    assert_eq!(arena.nodes[0].yaw, HALF_PI_FP);
}

#[test]
fn orbit_accumulates_and_wraps() {
    let mut arena = SceneArena {
        nodes: vec![
            SceneNode {
                parent: None,
                offset: Vec3Fp { x: 0, y: 0, z: 0 },
                yaw: 0,
                rotator: Some(Rotator { speed: PI_FP }),
                body: None,
            },
        ],
    };
    // Four half-seconds of pi/s accumulate just short of a full turn.
    for _ in 0..4 {
        rotate_objects(&mut arena, 500_000);
    }
    assert_eq!(arena.nodes[0].yaw, 6_283_184);
    // The fifth tick wraps past the full turn.
    rotate_objects(&mut arena, 500_000);
    assert_eq!(arena.nodes[0].yaw, 1_570_795);
    // A node without a rotator never moves.
    let mut still = SceneArena {
        nodes: vec![
            SceneNode {
                parent: None,
                offset: Vec3Fp { x: 5_000_000, y: 0, z: 0 },
                yaw: 123,
                rotator: None,
                body: Some(Body::Star),
            },
        ],
    };
    rotate_objects(&mut still, 500_000);
    assert_eq!(still.nodes[0].yaw, 123);
}

#[test]
fn world_position_composes_parent_chain() {
    // Pivot at the origin (no yaw), anchor 10 units out, planet on the
    // anchor: the planet sits 10 units from the origin, on the x axis.
    let arena = SceneArena {
        nodes: vec![
            SceneNode {
                parent: None,
                offset: Vec3Fp { x: 0, y: 0, z: 0 },
                yaw: 0,
                rotator: Some(Rotator { speed: 200_000 }),
                body: None,
            },
            SceneNode {
                parent: Some(0),
                offset: Vec3Fp { x: 10_000_000, y: 0, z: 0 },
                yaw: 0,
                rotator: None,
                body: Some(Body::Planet),
            },
        ],
    };
    let pos = node_world_pos(&arena, 1);
    // cos(0) in the fixed-point model is 999_999, within 1e-6 of one.
    assert!((pos.x - 10_000_000).abs() <= 20);
    assert_eq!(pos.y, 0);
    assert!(pos.z.abs() <= 20);
    let index = SceneIndex::build(&arena);
    assert_eq!(index.planets.len(), 1);
    assert_eq!(index.planets[0], pos);
}

#[test]
fn radius_floor_dominates_close_planet() {
    // A single planet 10 units out: the 20-unit floor wins, so the
    // constrain limit is 25 units.
    let index = single_planet_index(10_000_000, 0, 0);
    assert_eq!(max_planet_radius(&index), 20_000_000);
    assert_eq!(max_planet_radius(&index), RADIUS_FLOOR);
}

#[test]
fn radius_follows_far_planet() {
    let index = single_planet_index(30_000_000, 0, 0);
    assert_eq!(max_planet_radius(&index), 30_000_000);
    let empty = SceneIndex { planets: vec![] };
    assert_eq!(max_planet_radius(&empty), RADIUS_FLOOR);
}

#[test]
fn constrain_pulls_ground_point_onto_limit_circle() {
    // Planet 30 units out: limit = 35. A camera looking straight down at
    // ground distance 50 is pulled to exactly distance 35, same bearing.
    let index = single_planet_index(30_000_000, 0, 0);
    let mut cam = camera_looking_down(50_000_000, 10_000_000, 0);
    constrain_camera(&mut cam, &index);
    assert_eq!(cam.position.x, 35_000_000);
    assert_eq!(cam.position.z, 0);
    assert_eq!(cam.position.y, 10_000_000);
}

#[test]
fn constrain_raises_low_camera() {
    let index = single_planet_index(10_000_000, 0, 0);
    let mut cam = camera_looking_down(0, 1_000_000, 0);
    constrain_camera(&mut cam, &index);
    assert_eq!(cam.position.y, MIN_HEIGHT);
    // Ground point at the origin: well within the limit, no pull.
    assert_eq!(cam.position.x, 0);
    assert_eq!(cam.position.z, 0);
}

#[test]
fn constrain_leaves_inside_camera_alone() {
    let index = single_planet_index(10_000_000, 0, 0);
    let mut cam = camera_looking_down(24_000_000, 10_000_000, 0);
    let before = cam;
    constrain_camera(&mut cam, &index);
    assert_eq!(cam, before);
}

#[test]
fn constrain_skips_level_camera() {
    // Forward parallel to the ground: no ray hit, only the height clamp.
    let index = single_planet_index(10_000_000, 0, 0);
    let mut cam = camera_looking_down(900_000_000, 1_000_000, 0);
    cam.forward = Vec3Fp { x: SCALE, y: 0, z: 0 };
    constrain_camera(&mut cam, &index);
    assert_eq!(cam.position.x, 900_000_000);
    assert_eq!(cam.position.y, MIN_HEIGHT);
    assert_eq!(cam.position.z, 0);
}

#[test]
fn constrain_far_camera_lands_within_limit() {
    // A camera far outside the limit with a slanted view: afterwards the
    // recomputed ground hit point lies within limit distance.
    let index = single_planet_index(30_000_000, 0, 0);
    let mut cam = camera_looking_down(400_000_000, 90_000_000, -250_000_000);
    cam.forward = Vec3Fp { x: -400_000, y: -800_000, z: 300_000 };
    constrain_camera(&mut cam, &index);
    let t = -(cam.position.y as i128) * 1_000_000 / (cam.forward.y as i128);
    let gx = cam.position.x as i128 + (cam.forward.x as i128) * t / 1_000_000;
    let gz = cam.position.z as i128 + (cam.forward.z as i128) * t / 1_000_000;
    let limit: i128 = 35_000_000;
    assert!(gx * gx + gz * gz <= limit * limit);
}

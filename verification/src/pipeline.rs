//! The per-frame update, as one explicit sequential pipeline: orbit
//! update first (pure local state), then zoom, then pan, then the bounds
//! constraint, which must run last to correct the other two before the
//! frame is rendered.

use vstd::prelude::*;
use crate::fixed::abs_i;
use crate::camera::{CameraState, MIN_ZOOM, MAX_ZOOM};
use crate::frame::{InputFrame, WindowSize, DT_LIMIT};
use crate::scene::{SceneArena, SceneIndex, spin_node, planet_positions};
use crate::zoom::{zoom_camera, POS_LIMIT};
use crate::pan::pan_camera;
use crate::bounds::{
    constrain_camera, scene_radius, ground_dist_sq, MIN_HEIGHT, RADIUS_MARGIN, FORWARD_Y_EPS,
};

verus! {

/// Advances the scene and the camera by one frame: orbits spin, scroll
/// zooms about the cursor, keys and screen edges pan, and the bounds
/// constraint corrects the result.  Afterwards the zoom invariant and
/// both bound guarantees hold: the scale sits in `[MIN_ZOOM, MAX_ZOOM]`,
/// the camera is at least `MIN_HEIGHT` high, and (when its forward ray
/// meets the ground) the ground hit point lies within the scene radius
/// plus `RADIUS_MARGIN`.
pub fn tick(
    arena: &mut SceneArena,
    cam: &mut CameraState,
    input: &InputFrame,
    window: &WindowSize,
    dt: i64,
) -> (index: SceneIndex)
    requires
        old(arena).wf(),
        old(cam).wf(),
        window.wf(),
        input.wf(*window),
        0 <= dt <= DT_LIMIT,
        old(cam).position.in_range(POS_LIMIT as int),
    ensures
        final(arena).wf(),
        final(arena).nodes.len() == old(arena).nodes.len(),
        forall|i: int|
            0 <= i < old(arena).nodes.len() ==> final(arena).nodes@[i] == spin_node(
                old(arena).nodes@[i],
                dt as int,
            ),
        index.wf(),
        index.planets@ == planet_positions(*final(arena), final(arena).nodes.len() as int),
        final(cam).wf(),
        final(cam).same_frame(*old(cam)),
        MIN_ZOOM <= final(cam).scale <= MAX_ZOOM,
        final(cam).position.y >= MIN_HEIGHT,
        abs_i(final(cam).forward.y as int) > FORWARD_Y_EPS ==> ground_dist_sq(*final(cam)) <= (
        scene_radius(index) + RADIUS_MARGIN) * (scene_radius(index) + RADIUS_MARGIN),
{
    crate::scene::rotate_objects(arena, dt);
    zoom_camera(cam, input, window);
    pan_camera(cam, input, window, dt);
    let index = SceneIndex::build(arena);
    constrain_camera(cam, &index);
    index
}

} // verus!

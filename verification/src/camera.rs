//! The camera's mutable state: position, orientation basis and the
//! orthographic projection (zoom scale plus scaling mode).

use vstd::prelude::*;
use crate::fixed::{SCALE, divt};
use crate::vec3::Vec3Fp;

verus! {

/// One component of a camera translation: a world-plane offset
/// `(mx, my)` resolved along the camera's right and up axes (`r` and `u`
/// are one component of each axis).
pub open spec fn axis_shift(r: int, u: int, mx: int, my: int) -> int {
    divt(r * mx, SCALE as int) + divt(u * my, SCALE as int)
}

/// Smallest orthographic scale the zoom may reach (0.2 world units per
/// screen unit).
pub const MIN_ZOOM: i64 = 200_000;

/// Largest orthographic scale the zoom may reach (5.0).
pub const MAX_ZOOM: i64 = 5_000_000;

/// Largest viewport extent a scaling mode may carry (1000 world units).
pub const VIEW_LIMIT: i64 = 1_000_000_000;

/// Which viewport extent the orthographic projection holds fixed; the
/// other axis follows from the window's aspect ratio.
#[derive(Clone, Copy, PartialEq, Eq, Structural, Debug)]
pub enum ScalingMode {
    FixedVertical { viewport_height: i64 },
    FixedHorizontal { viewport_width: i64 },
}

impl ScalingMode {
    /// The carried extent is nonnegative and bounded.
    pub open spec fn wf(self) -> bool {
        match self {
            ScalingMode::FixedVertical { viewport_height } => 0 <= viewport_height
                <= VIEW_LIMIT,
            ScalingMode::FixedHorizontal { viewport_width } => 0 <= viewport_width <= VIEW_LIMIT,
        }
    }
}

/// Position, orientation basis and orthographic projection of the camera.
///
/// The basis vectors are the camera's world-space right, up and forward
/// axes; each component lies in `[-SCALE, SCALE]` (unit vectors in fixed
/// point).  The zoom invariant keeps `scale` within
/// `[MIN_ZOOM, MAX_ZOOM]`.
#[derive(Clone, Copy, PartialEq, Eq, Structural, Debug)]
pub struct CameraState {
    pub position: Vec3Fp,
    pub right: Vec3Fp,
    pub up: Vec3Fp,
    pub forward: Vec3Fp,
    pub scale: i64,
    pub scaling_mode: ScalingMode,
}

impl CameraState {
    /// Well-formedness: clamped scale, unit-range basis, bounded mode.
    pub open spec fn wf(self) -> bool {
        &&& MIN_ZOOM <= self.scale <= MAX_ZOOM
        &&& self.right.in_range(SCALE as int)
        &&& self.up.in_range(SCALE as int)
        &&& self.forward.in_range(SCALE as int)
        &&& self.scaling_mode.wf()
    }

    /// Everything but position and scale, unchanged between two states.
    pub open spec fn same_frame(self, other: CameraState) -> bool {
        &&& self.right == other.right
        &&& self.up == other.up
        &&& self.forward == other.forward
        &&& self.scaling_mode == other.scaling_mode
    }
}

} // verus!

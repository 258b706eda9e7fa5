//! Small fixed-point vector types used for positions, camera basis axes
//! and cursor coordinates.

use vstd::prelude::*;
use crate::fixed::abs_i;

verus! {

/// A 2-vector of fixed-point scalars (screen coordinates).
#[derive(Clone, Copy, PartialEq, Eq, Structural, Debug)]
pub struct Vec2Fp {
    pub x: i64,
    pub y: i64,
}

/// A 3-vector of fixed-point scalars (world coordinates; `y` is up).
#[derive(Clone, Copy, PartialEq, Eq, Structural, Debug)]
pub struct Vec3Fp {
    pub x: i64,
    pub y: i64,
    pub z: i64,
}

impl Vec3Fp {
    /// Squared Euclidean norm, exactly.
    pub open spec fn norm_sq(self) -> int {
        self.x * self.x + self.y * self.y + self.z * self.z
    }

    /// Squared norm of the ground (horizontal) projection.
    pub open spec fn xz_norm_sq(self) -> int {
        self.x * self.x + self.z * self.z
    }

    /// Every component within `[-k, k]`.
    pub open spec fn in_range(self, k: int) -> bool {
        abs_i(self.x as int) <= k && abs_i(self.y as int) <= k && abs_i(self.z as int) <= k
    }
}

impl Vec2Fp {
    /// Every component within `[-k, k]`.
    pub open spec fn in_range(self, k: int) -> bool {
        abs_i(self.x as int) <= k && abs_i(self.y as int) <= k
    }
}

} // verus!

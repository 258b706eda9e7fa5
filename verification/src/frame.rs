//! The per-tick input snapshot: window extent, cursor, scroll deltas and
//! held directional keys.  Controllers only read it.

use vstd::prelude::*;
use crate::vec3::Vec2Fp;

verus! {

/// Smallest accepted window extent (0.001 screen units).
pub const WINDOW_MIN: i64 = 1_000;

/// Largest accepted window extent (16000 screen units).
pub const WINDOW_MAX: i64 = 16_000_000_000;

/// Largest magnitude a single scroll delta may carry (one million scroll
/// units; real wheels send single digits).
pub const SCROLL_LIMIT: i64 = 1_000_000_000_000;

/// Most scroll events one tick may carry.
pub const SCROLL_EVENTS_MAX: usize = 4096;

/// Longest accepted tick, in fixed-point seconds (10 s).
pub const DT_LIMIT: i64 = 10_000_000;

/// Window extent in fixed-point screen units.
#[derive(Clone, Copy, PartialEq, Eq, Structural, Debug)]
pub struct WindowSize {
    pub width: i64,
    pub height: i64,
}

impl WindowSize {
    /// Bounded extents with an aspect ratio within `[1/100, 100]`.
    pub open spec fn wf(self) -> bool {
        &&& WINDOW_MIN <= self.width <= WINDOW_MAX
        &&& WINDOW_MIN <= self.height <= WINDOW_MAX
        &&& self.width <= 100 * self.height
        &&& self.height <= 100 * self.width
    }
}

/// Which pan directions are currently requested by the keyboard; each
/// flag already merges a key and its alternate.
#[derive(Clone, Copy, PartialEq, Eq, Structural, Debug)]
pub struct HeldKeys {
    pub up: bool,
    pub down: bool,
    pub left: bool,
    pub right: bool,
}

/// One tick's input: cursor position in screen coordinates (absent when
/// the cursor left the window), scroll deltas in arrival order, and the
/// held directional keys.
#[derive(Clone, Debug)]
pub struct InputFrame {
    pub cursor: Option<Vec2Fp>,
    pub scroll: Vec<i64>,
    pub keys: HeldKeys,
}

impl InputFrame {
    /// Cursor (when present) inside the window, and bounded scroll input.
    pub open spec fn wf(self, window: WindowSize) -> bool {
        &&& match self.cursor {
            Some(c) => 0 <= c.x <= window.width && 0 <= c.y <= window.height,
            None => true,
        }
        &&& self.scroll.len() <= SCROLL_EVENTS_MAX
        &&& forall|i: int|
            0 <= i < self.scroll.len() ==> -SCROLL_LIMIT <= #[trigger] self.scroll[i]
                <= SCROLL_LIMIT
    }
}

} // verus!

//! Camera navigation and orbit animation for a small orbiting celestial
//! scene, modelled in fixed-point arithmetic: every scalar carries six
//! decimal places (`fixed::SCALE` ticks per world unit), so each controller
//! is an exact, deterministic function of its per-tick inputs.
//!
//! The per-frame pipeline is: orbit update, zoom, pan, bounds constraint,
//! in that order (see [`pipeline`]).

pub mod bounds;
pub mod camera;
pub mod fixed;
pub mod frame;
pub mod pan;
pub mod pipeline;
pub mod scene;
pub mod trig;
pub mod vec3;
pub mod zoom;

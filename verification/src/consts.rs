//! Session-wide tuning constants, in micro-units.

use vstd::prelude::*;

verus! {

/// Window width, in micro-pixels.
pub const WINDOW_W_M: i64 = 800_000_000;

/// Window height, in micro-pixels.
pub const WINDOW_H_M: i64 = 800_000_000;

/// Half the window width, in micro-pixels: the screen center.
pub const WINDOW_HALF_W_M: i64 = 400_000_000;

/// Half the window height, in micro-pixels: the screen center.
pub const WINDOW_HALF_H_M: i64 = 400_000_000;

/// Zoom at zero scroll, in micro-pixels per world unit.
pub const DEFAULT_ZOOM_M: i64 = 50_000_000;

/// Base of the camera zoom scale: one whole scroll step multiplies the
/// zoom by this factor (1.1).
pub const ZOOM_FACTOR_M: i64 = 1_100_000;

/// Keyboard thrust, in world units per second per second.
pub const BASE_ACC: i64 = 20;

/// Largest magnitude of a spawned particle's velocity per axis, in
/// micro-units per second.
pub const MAX_PARTICLE_V_M: i64 = 20_000_000;

/// Largest magnitude of a spawned particle's angular velocity, in
/// micro-radians per second.
pub const MAX_PARTICLE_ANG_M: i64 = 3_140_000;

/// Side (or diameter) of a generated particle shape, in micro-units.
pub const SHAPE_SIZE_M: i64 = 1_000_000;

} // verus!

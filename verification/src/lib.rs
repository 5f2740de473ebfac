//! Deterministic, clock-driven simulation core for a small 2D world of
//! spatial entities, together with a seed-stable procedural parallax
//! starfield. All quantities are carried as fixed-point integers in
//! micro-units (one world unit = 1_000_000), so every update rule is exact
//! and machine-checked; the unverified boundary converts to and from
//! floating point when it talks to a window or a renderer.

pub mod components;
pub mod consts;
pub mod fixed;
pub mod game;
pub mod parallax;
pub mod rendering;
pub mod systems;
pub mod trig;
pub mod world;

pub use fixed::SCALE;

//! Ball-trajectory prediction over static arena geometry.
//!
//! The library works in fixed-point coordinates: one stored unit is one
//! hundredth of a game unit, so every position, extent and velocity is a
//! plain `i64`.  On top of that it provides rigid transforms, triangle
//! meshes, a bounding-volume hierarchy for collision queries, per-mode
//! arena builders, and a fixed-step ball simulator that produces a
//! deterministic prediction sequence.

pub mod math;
pub mod mesh;
pub mod geom;
pub mod bvh;
pub mod sim;
pub mod field;

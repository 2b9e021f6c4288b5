//! Axis-aligned rectangle collision on an integer world grid: world-rect
//! resolution, pairwise overlap detection, contact classification,
//! push-out and velocity reflection.
//!
//! Coordinates are `i32` grid cells. A well-formed rectangle has even
//! extents, so that its center and half-size are grid cells too; every
//! operation whose result could leave the grid states the bound it needs.
//!
//! - `geometry`: points, rectangles, placements and world-rect resolution.
//! - `segment`: the nine zones around a rectangle, contact normals,
//!   push-out vectors and reflection.
//! - `collision`: colliders, the pairwise detector and its events.
//! - `response`: pushing tagged entities out, reflecting velocities.
//! - `movement`: key-driven movement and clamping to bounds.

pub mod geometry;
pub mod segment;
pub mod collision;
pub mod response;
pub mod movement;

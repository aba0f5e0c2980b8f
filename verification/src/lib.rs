//! Ground-collision and movement core for a 2D side-scrolling platformer.
//!
//! The walkable ground is a set of one-dimensional piecewise-linear segments
//! ("footholds"). A single moving body is tracked by a small state machine
//! that decides, once per simulated tick, which segment the body stands on,
//! clamps vertical penetration against slanted or flat ground, and hands the
//! body off between linked segments as it moves horizontally.
//!
//! All coordinates are integers in fixed-point world units, so every
//! geometric quantity in the library is exact: interpolated ground heights
//! and intersection points are rational numbers represented by [`frac::Frac`].

use vstd::prelude::*;

pub mod chain;
pub mod collider;
pub mod foothold;
pub mod frac;
pub mod geometry;
pub mod layer;
pub mod player;
pub mod rigid_body;

verus! {

/// Largest magnitude allowed for a foothold coordinate, in world units.
pub const COORD_LIMIT: i64 = 1_000_000_000;

/// Largest magnitude allowed for a body position, velocity or acceleration,
/// in world units. Bodies may travel beyond the foothold area, so this bound
/// is wider than `COORD_LIMIT`.
pub const POS_LIMIT: i64 = 1_000_000_000_000;

} // verus!

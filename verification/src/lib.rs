//! A per-entity movement simulator on a tile grid.
//!
//! A directional command is turned into velocity along an
//! attack / sustain / release envelope, and the resulting motion is resolved
//! against the solid tiles of a level. All quantities are fixed-point
//! integers, so every step is exact and reproducible.

pub mod direction;
pub mod entity;
pub mod environment;
pub mod envelope;
pub mod level;
pub mod movement;
pub mod units;

//! A grid-based raycasting core: a toroidal occupancy grid, a player with
//! movement intents, and a DDA (digital differential analysis) raycaster that
//! projects wall hits into per-column rectangles for a drawing surface.
//!
//! All continuous quantities (positions, heading, distances) are exact
//! fixed-point integers with `fixed::SCALE` raw steps per map unit, so every
//! routine carries a contract that pins its result down to the last raw step.

pub mod fixed;
pub mod grid;
pub mod player;
pub mod raycast;
pub mod game;

//! Autonomous creature behaviour on a 2D world: spaced random placement,
//! a landmark registry with nearest-neighbour queries, and the per-creature
//! wandering and death state machines.
//!
//! Positions live on a fixed-point grid of `i32` coordinates, one thousandth
//! of a world unit each. Durations are whole milliseconds.
pub mod animal;
pub mod death;
pub mod geometry;
pub mod motion;
pub mod placement;
pub mod random;
pub mod tree;

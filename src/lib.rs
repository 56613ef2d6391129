//! A population of autonomous actors moving and acting on a 2D plane, with
//! a quadtree answering what is near each of them.
//!
//! Positions, lengths and durations are fixed-point integers: one world unit
//! is `region::UNIT` steps, and one second is `region::UNIT` ticks of time.
pub mod anchor;
pub mod components;
pub mod input;
pub mod qt;
pub mod region;
pub mod world;

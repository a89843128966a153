//! A falling-block stacking simulation: blocks spawn at the top of a bounded
//! playfield, fall under a fixed-step gravity tick, collide with settled
//! geometry or the floor, and come to rest; the player may nudge falling
//! blocks left or right within the playfield bounds.

pub mod block;
pub mod engine;
pub mod grid;
pub mod rng;
pub mod sim;
pub mod config;
pub mod timer;

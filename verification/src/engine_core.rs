//! Simulated time and the world that a frame operates on.

pub mod clock_model;
pub mod core_loop;
pub mod mixed_radix;
pub mod temporal;
pub mod world;

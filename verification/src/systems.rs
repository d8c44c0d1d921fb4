//! The systems that come with the engine.

pub mod input_system;

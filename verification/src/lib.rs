//! Core of a small simulation engine: an entity/component store and a
//! mixed-radix simulation clock with a deterministic deferred-event queue.

pub mod ecs_core;
pub mod engine_core;
pub mod systems;

//! The system that feeds input into the world.

use crate::ecs_core::component::Component;
use crate::ecs_core::system::System;
use crate::engine_core::world::World;
use vstd::prelude::*;

verus! {

/// The input system. It holds no state of its own.
pub struct InputSystem {}

impl InputSystem {
    pub fn new() -> (system: Self) {
        Self {  }
    }
}

impl<'a, C: Component, R> System<'a, C, R> for InputSystem {
    /// Input devices are polled outside the core, so a frame of the input
    /// system leaves the world as it is.
    open spec fn effect(
        &self,
        delta_time: u32,
        before: World<'a, C, R>,
        after: World<'a, C, R>,
    ) -> bool {
        after == before
    }

    fn update(&mut self, delta_time: u32, world: &mut World<'a, C, R>) {
    }
}

} // verus!

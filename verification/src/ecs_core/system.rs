//! The contract between the world and the code that works on it each frame.

use crate::ecs_core::component::Component;
use crate::engine_core::world::World;
use vstd::prelude::*;

verus! {

/// A unit of per-frame work. The driver runs its systems one at a time, in
/// the order in which they were registered.
pub trait System<'a, C: Component, R> {
    /// What one frame of this system may make of the world: `after` is a
    /// world that the system, in the state it is in, may leave when it is
    /// given `delta_time` and finds `before`. A system whose work depends on
    /// nothing else admits one `after` for each `before`. A system that
    /// does not say admits every world.
    open spec fn effect(
        &self,
        delta_time: u32,
        before: World<'a, C, R>,
        after: World<'a, C, R>,
    ) -> bool {
        true
    }

    /// One frame of this system's work. `delta_time` is the simulated time
    /// of the frame in milliseconds. The system may read and change any
    /// entity, component or resource handle of the world; it leaves the
    /// world well formed, and as its `effect` says.
    fn update(&mut self, delta_time: u32, world: &mut World<'a, C, R>)
        requires
            old(world).wf(),
        ensures
            final(world).wf(),
            old(self).effect(delta_time, *old(world), *final(world)),
    ;
}

} // verus!

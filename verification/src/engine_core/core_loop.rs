//! The per-frame driver: one call for each tick of the host.

use crate::ecs_core::component::Component;
use crate::ecs_core::system::System;
use crate::engine_core::clock_model::TemporalEvent;
use crate::engine_core::temporal::AdvancedTime;
use crate::engine_core::world::World;
use crate::systems::input_system::InputSystem;
use vstd::prelude::*;

verus! {

/// The clock, the world, and the systems that work on the world, in the
/// order in which they were registered.
#[verifier::reject_recursive_types(C)]
#[verifier::reject_recursive_types(R)]
pub struct EngineLoop<'a, C, R, P> {
    pub temporal: AdvancedTime<P>,
    pub world: World<'a, C, R>,
    pub systems: Vec<Box<dyn System<'a, C, R>>>,
}

/// The systems of `systems` ran on the world, each once, one after the
/// other in the order of the sequence, each on the world as the one before
/// it left it: they were given `delta_time`, found `before`, and left
/// `after`.
pub open spec fn systems_ran<'a, C: Component, R>(
    systems: Seq<Box<dyn System<'a, C, R>>>,
    delta_time: u32,
    before: World<'a, C, R>,
    after: World<'a, C, R>,
) -> bool
    decreases systems.len(),
{
    if systems.len() == 0 {
        after == before
    } else {
        exists|between: World<'a, C, R>|
            systems_ran(systems.drop_last(), delta_time, before, between)
                && #[trigger] systems.last().effect(delta_time, between, after)
    }
}

impl<'a, C: Component, R, P> EngineLoop<'a, C, R, P> {
    /// The clock and the world are well formed.
    pub open spec fn wf(&self) -> bool {
        self.temporal@.wf() && self.world.wf()
    }

    /// A driver for `world` on `temporal`, with the input system as its
    /// only system.
    pub fn new(temporal: AdvancedTime<P>, world: World<'a, C, R>) -> (driver: Self)
        requires
            temporal@.wf(),
            world.wf(),
        ensures
            driver.wf(),
            driver.temporal == temporal,
            driver.world == world,
            driver.systems@.len() == 1,
            forall|delta_time: u32, before: World<'a, C, R>, after: World<'a, C, R>|
                #[trigger] driver.systems@[0].effect(delta_time, before, after) <==> after
                    == before,
    {
        let input: Box<dyn System<'a, C, R>> = Box::new(InputSystem::new());
        let systems = vec![input];
        Self { temporal, world, systems }
    }

    /// One frame at wall-clock reading `now_us`: the clock is updated once,
    /// then every system runs once, to its end, in the order of
    /// registration. Returns the events that the clock fired.
    ///
    /// Each system is given the clock's delta after the update. On a frame
    /// that does not advance the clock (it is paused, or this is its first
    /// reading) that is the delta of the last frame that did.
    pub fn run_frame(&mut self, now_us: u64) -> (fired: Vec<TemporalEvent<P>>)
        requires
            old(self).wf(),
            old(self).temporal@.can_update(now_us as nat),
        ensures
            final(self).wf(),
            final(self).temporal@ == old(self).temporal@.updated(now_us as nat),
            fired@ == old(self).temporal@.fired(now_us as nat),
            final(self).systems@.len() == old(self).systems@.len(),
            systems_ran(
                old(self).systems@,
                final(self).temporal@.last_delta_ms as u32,
                old(self).world,
                final(self).world,
            ),
    {
        let fired = self.temporal.update(now_us);
        let delta_time = self.temporal.get_delta_time();
        let mut at: usize = 0;
        while at < self.systems.len()
            invariant
                self.wf(),
                self.temporal@ == old(self).temporal@.updated(now_us as nat),
                self.systems@.len() == old(self).systems@.len(),
                at <= self.systems@.len(),
                delta_time == self.temporal@.last_delta_ms,
                forall|i: int|
                    at <= i < self.systems@.len() ==> self.systems@[i] == old(self).systems@[i],
                systems_ran(
                    old(self).systems@.take(at as int),
                    delta_time,
                    old(self).world,
                    self.world,
                ),
            decreases self.systems@.len() - at,
        {
            let ghost between = self.world;
            self.systems[at].update(delta_time, &mut self.world);
            proof {
                let done = old(self).systems@.take(at as int + 1);
                assert(done.drop_last() =~= old(self).systems@.take(at as int));
                assert(done.last() == old(self).systems@[at as int]);
                assert(systems_ran(done.drop_last(), delta_time, old(self).world, between));
                assert(done.last().effect(delta_time, between, self.world));
            }
            at = at + 1;
        }
        proof {
            assert(old(self).systems@.take(at as int) =~= old(self).systems@);
        }
        fired
    }
}

} // verus!

//! The world: the data that one frame works on.

use crate::ecs_core::component::Component;
use crate::ecs_core::component::ComponentManager;
use crate::ecs_core::entity::EntityManager;
use crate::ecs_core::resource::registered;
use crate::ecs_core::resource::ResourceManager;
use crate::ecs_core::resource::ResourceTypeId;
use vstd::prelude::*;

verus! {

/// The entities, their components and the shared resources.
pub struct World<'a, C, R> {
    pub entities: EntityManager,
    pub components: ComponentManager<C>,
    pub resources: ResourceManager<'a, R>,
}

impl<'a, C: Component, R> World<'a, C, R> {
    /// The entity manager is well formed.
    pub open spec fn wf(&self) -> bool {
        self.entities.wf()
    }

    /// A world without entities and components, on the resources that the
    /// caller supplies: each is registered under its type, in the order of
    /// `resources`. The world borrows the resources and owns none.
    pub fn new(resources: Vec<(ResourceTypeId, &'a R)>) -> (world: Self)
        ensures
            world.wf(),
            world.entities.next_fresh() == 0,
            world.entities.pool() == Seq::<u32>::empty(),
            world.components@ == Map::<u64, Map<u32, C>>::empty(),
            world.resources@ == registered(resources@),
    {
        let mut handles = ResourceManager::new();
        let mut at: usize = 0;
        while at < resources.len()
            invariant
                at <= resources@.len(),
                handles@ == registered(resources@.take(at as int)),
            decreases resources@.len() - at,
        {
            let (resource_type, resource) = resources[at];
            handles.insert(resource_type, resource);
            proof {
                assert(resources@.take(at as int + 1).drop_last() =~= resources@.take(at as int));
            }
            at = at + 1;
        }
        proof {
            assert(resources@.take(at as int) =~= resources@);
        }
        Self {
            entities: EntityManager::new(),
            components: ComponentManager::new(),
            resources: handles,
        }
    }
}

} // verus!

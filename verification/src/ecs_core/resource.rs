//! Shared objects that belong to no entity, one for each resource type.

use std::collections::HashMap;
use vstd::prelude::*;

verus! {

broadcast use vstd::std_specs::hash::group_hash_axioms;

/// The identifier of a resource type: the key under which the registry keeps
/// the handle of that type.
pub type ResourceTypeId = u64;

/// The handles that a registry holds after the resources of `supplied` were
/// registered one after the other: of two resources of one type the later
/// one stays.
pub open spec fn registered<'a, R>(supplied: Seq<(ResourceTypeId, &'a R)>) -> Map<
    ResourceTypeId,
    &'a R,
>
    decreases supplied.len(),
{
    if supplied.len() == 0 {
        Map::empty()
    } else {
        registered(supplied.drop_last()).insert(supplied.last().0, supplied.last().1)
    }
}

/// A registry of handles to resources that someone else owns.
///
/// The registry borrows each resource for `'a` and never copies or drops
/// one, so no handle can outlive the object behind it.
pub struct ResourceManager<'a, R> {
    resources: HashMap<ResourceTypeId, &'a R>,
}

impl<'a, R> View for ResourceManager<'a, R> {
    type V = Map<ResourceTypeId, &'a R>;

    closed spec fn view(&self) -> Map<ResourceTypeId, &'a R> {
        self.resources@
    }
}

impl<'a, R> ResourceManager<'a, R> {
    /// A registry without handles.
    pub fn new() -> (manager: Self)
        ensures
            manager@ == Map::<ResourceTypeId, &'a R>::empty(),
    {
        Self { resources: HashMap::new() }
    }

    /// A registry holds finitely many handles.
    pub proof fn lemma_handles_are_finite(&self)
        ensures
            self@.dom().finite(),
    {
    }

    /// Registers `resource` as the resource of type `resource_type`, in
    /// place of the handle that the type had. The object that the earlier
    /// handle led to is left alone.
    pub fn insert(&mut self, resource_type: ResourceTypeId, resource: &'a R)
        ensures
            final(self)@ == old(self)@.insert(resource_type, resource),
    {
        self.resources.insert(resource_type, resource);
    }

    /// The resource of type `resource_type`, if one was registered.
    pub fn get(&self, resource_type: ResourceTypeId) -> (resource: Option<&'a R>)
        ensures
            match resource {
                Some(found) => self@.contains_key(resource_type) && found
                    == self@[resource_type],
                None => !self@.contains_key(resource_type),
            },
    {
        match self.resources.get(&resource_type) {
            Some(found) => Some(*found),
            None => None,
        }
    }
}

} // verus!

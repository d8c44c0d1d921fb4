//! Component values: one store per component type, and the registry of
//! those stores.

use crate::ecs_core::entity::Entity;
use std::collections::hash_map::Entry;
use std::collections::HashMap;
use vstd::std_specs::hash::spec_hash_map_iter;
use vstd::std_specs::iter::IteratorSpec;
use vstd::prelude::*;

verus! {

broadcast use vstd::std_specs::hash::group_hash_axioms;

/// The values of one component type, at most one for each entity. An entity
/// has the component exactly when the store holds an entry for it.
pub struct ComponentStorage<C> {
    components: HashMap<Entity, C>,
}

impl<C> View for ComponentStorage<C> {
    type V = Map<Entity, C>;

    closed spec fn view(&self) -> Map<Entity, C> {
        self.components@
    }
}

impl<C> ComponentStorage<C> {
    /// A store without entries.
    pub fn new() -> (storage: Self)
        ensures
            storage@ == Map::<Entity, C>::empty(),
    {
        Self { components: HashMap::new() }
    }

    /// A store holds finitely many entries, so they can be counted: the
    /// count grows by one with an entity that had no component, and falls by
    /// one with an entity that loses its own.
    pub proof fn lemma_entries_are_finite(&self)
        ensures
            self@.dom().finite(),
    {
    }

    /// Gives `entity` the value `component`, in place of the one it had.
    pub fn insert(&mut self, entity: Entity, component: C)
        ensures
            final(self)@ == old(self)@.insert(entity, component),
    {
        self.components.insert(entity, component);
    }

    /// Takes the component from `entity`. Nothing changes where it has none.
    pub fn remove(&mut self, entity: &Entity)
        ensures
            final(self)@ == old(self)@.remove(*entity),
    {
        self.components.remove(entity);
    }

    /// The component of `entity`, if it has one.
    pub fn get(&self, entity: &Entity) -> (component: Option<&C>)
        ensures
            match component {
                Some(value) => self@.contains_key(*entity) && *value == self@[*entity],
                None => !self@.contains_key(*entity),
            },
    {
        self.components.get(entity)
    }

    /// The component of `entity`, if it has one, to be changed in place:
    /// what the caller leaves behind the reference is the entity's new
    /// value, and no other entry changes.
    pub fn get_mut(&mut self, entity: &Entity) -> (component: Option<&mut C>)
        ensures
            match component {
                Some(value) => {
                    &&& old(self)@.contains_key(*entity)
                    &&& *value == old(self)@[*entity]
                    &&& final(self)@ == old(self)@.insert(*entity, *final(value))
                },
                None => !old(self)@.contains_key(*entity) && final(self)@ == old(self)@,
            },
    {
        match self.components.entry(*entity) {
            Entry::Occupied(occupied) => Some(occupied.into_mut()),
            Entry::Vacant(_) => None,
        }
    }

    /// Every entry of the store, each entity once with its component, in no
    /// particular order.
    pub fn iter(&self) -> (entries: Vec<(Entity, &C)>)
        ensures
            self@.dom().finite(),
            entries@.len() == self@.dom().len(),
            forall|i: int|
                0 <= i < entries@.len() ==> self@.contains_key((#[trigger] entries@[i]).0)
                    && self@[entries@[i].0] == *entries@[i].1,
            forall|i: int, j: int|
                0 <= i < j < entries@.len() ==> entries@[i].0 != entries@[j].0,
            forall|entity: Entity|
                self@.contains_key(entity) ==> exists|i: int|
                    0 <= i < entries@.len() && (#[trigger] entries@[i]).0 == entity,
    {
        let mut entries: Vec<(Entity, &C)> = Vec::new();
        let ghost all = spec_hash_map_iter(&self.components).remaining();
        for pair in walk: self.components.iter()
            invariant
                walk.seq() == all,
                all.no_duplicates(),
                entries@.len() == walk.index(),
                forall|i: int|
                    0 <= i < entries@.len() ==> (#[trigger] entries@[i]).0 == *all[i].0
                        && entries@[i].1 == all[i].1,
        {
            entries.push((*pair.0, pair.1));
        }
        proof {
            assert forall|i: int, j: int| 0 <= i < j < entries@.len() implies entries@[i].0
                != entries@[j].0 by {
                if entries@[i].0 == entries@[j].0 {
                    assert(self@.contains_key(*all[i].0) && self@[*all[i].0] == *all[i].1);
                    assert(self@.contains_key(*all[j].0) && self@[*all[j].0] == *all[j].1);
                    assert(all[i] == all[j]);
                }
            }
            assert forall|entity: Entity| self@.contains_key(entity) implies exists|i: int|
                0 <= i < entries@.len() && (#[trigger] entries@[i]).0 == entity by {
                assert(all.contains((&entity, &self@[entity])));
                let i = choose|i: int| 0 <= i < all.len() && all[i] == (&entity, &self@[entity]);
                assert(entries@[i].0 == entity);
            }
        }
        entries
    }
}

/// The identifier of a component type: the key under which the registry
/// keeps the store of that type.
pub type ComponentTypeId = u64;

/// What can be stored as a component: any sized value.
pub trait Component: Sized {

}

impl<T: Sized> Component for T {

}

/// The mathematical value of a registry: for each registered component type
/// the entries of its store.
pub type Registry<C> = Map<ComponentTypeId, Map<Entity, C>>;

/// The component of type `component_type` that `entity` has in `registry`,
/// if the type is registered and the entity has one.
pub open spec fn component_of<C>(
    registry: Registry<C>,
    component_type: ComponentTypeId,
    entity: Entity,
) -> Option<C> {
    if registry.contains_key(component_type) && registry[component_type].contains_key(entity) {
        Some(registry[component_type][entity])
    } else {
        None
    }
}

/// `registry` with `component_type` registered: a type that is new gets an
/// empty store, one that is registered keeps its store.
pub open spec fn with_type<C>(registry: Registry<C>, component_type: ComponentTypeId) -> Registry<
    C,
> {
    if registry.contains_key(component_type) {
        registry
    } else {
        registry.insert(component_type, Map::empty())
    }
}

/// `registry` after `entity` got `component` as its value of type
/// `component_type`: the type is registered, and the value stands in place
/// of the one that the entity had.
pub open spec fn with_component<C>(
    registry: Registry<C>,
    component_type: ComponentTypeId,
    entity: Entity,
    component: C,
) -> Registry<C> {
    registry.insert(
        component_type,
        with_type(registry, component_type)[component_type].insert(entity, component),
    )
}

/// `registry` after `entity` lost its value of type `component_type`. A
/// registry in which the type is not registered stays as it is.
pub open spec fn without_component<C>(
    registry: Registry<C>,
    component_type: ComponentTypeId,
    entity: Entity,
) -> Registry<C> {
    if registry.contains_key(component_type) {
        registry.insert(component_type, registry[component_type].remove(entity))
    } else {
        registry
    }
}

/// A component that was inserted is the one that a lookup finds, and after
/// it was removed a lookup finds none. Neither step touches the component of
/// another entity or of another type.
pub proof fn lemma_insert_get_remove<C>(
    registry: Registry<C>,
    component_type: ComponentTypeId,
    entity: Entity,
    component: C,
)
    ensures
        component_of(
            with_component(registry, component_type, entity, component),
            component_type,
            entity,
        ) == Some(component),
        component_of(
            without_component(
                with_component(registry, component_type, entity, component),
                component_type,
                entity,
            ),
            component_type,
            entity,
        ) == None::<C>,
        forall|other_type: ComponentTypeId, other: Entity|
            other_type != component_type || other != entity ==> {
                &&& #[trigger] component_of(
                    with_component(registry, component_type, entity, component),
                    other_type,
                    other,
                ) == component_of(registry, other_type, other)
                &&& #[trigger] component_of(
                    without_component(registry, component_type, entity),
                    other_type,
                    other,
                ) == component_of(registry, other_type, other)
            },
{
}

/// The registry of component stores, one store for each component type that
/// is registered.
pub struct ComponentManager<C> {
    storages: HashMap<ComponentTypeId, ComponentStorage<C>>,
}

impl<C> View for ComponentManager<C> {
    type V = Registry<C>;

    closed spec fn view(&self) -> Registry<C> {
        self.storages@.map_values(|storage: ComponentStorage<C>| storage@)
    }
}

impl<C: Component> ComponentManager<C> {
    /// A registry without component types.
    pub fn new() -> (manager: Self)
        ensures
            manager@ == Map::<ComponentTypeId, Map<Entity, C>>::empty(),
    {
        let manager = Self { storages: HashMap::new() };
        assert(manager@ =~= Map::<ComponentTypeId, Map<Entity, C>>::empty());
        manager
    }

    /// A registry holds finitely many component types, and each of its
    /// stores finitely many entries.
    pub proof fn lemma_registry_is_finite(&self)
        ensures
            self@.dom().finite(),
            forall|component_type: ComponentTypeId| #[trigger]
                self@.contains_key(component_type) ==> self@[component_type].dom().finite(),
    {
        assert(self@.dom() =~= self.storages@.dom());
        assert forall|component_type: ComponentTypeId| #[trigger]
            self@.contains_key(component_type) implies self@[component_type].dom().finite() by {
            self.storages@[component_type].lemma_entries_are_finite();
        }
    }

    /// Registers a component type with an empty store. A type that is
    /// registered already keeps its store.
    pub fn register_component(&mut self, component_type: ComponentTypeId)
        ensures
            final(self)@ == with_type(old(self)@, component_type),
    {
        if !self.storages.contains_key(&component_type) {
            self.storages.insert(component_type, ComponentStorage::new());
        }
        assert(self@ =~= with_type(old(self)@, component_type));
    }

    /// The store of a component type, if the type is registered.
    pub fn storage(&self, component_type: ComponentTypeId) -> (storage: Option<
        &ComponentStorage<C>,
    >)
        ensures
            match storage {
                Some(found) => self@.contains_key(component_type) && found@
                    == self@[component_type],
                None => !self@.contains_key(component_type),
            },
    {
        self.storages.get(&component_type)
    }

    /// The store of a component type, if the type is registered, to be
    /// changed in place: what the caller leaves behind the reference is the
    /// store of that type, and no other store changes.
    pub fn storage_mut(&mut self, component_type: ComponentTypeId) -> (storage: Option<
        &mut ComponentStorage<C>,
    >)
        ensures
            match storage {
                Some(found) => {
                    &&& old(self)@.contains_key(component_type)
                    &&& found@ == old(self)@[component_type]
                    &&& final(self)@ =~= old(self)@.insert(component_type, final(found)@)
                },
                None => !old(self)@.contains_key(component_type) && final(self)@ =~= old(self)@,
            },
    {
        match self.storages.entry(component_type) {
            Entry::Occupied(occupied) => Some(occupied.into_mut()),
            Entry::Vacant(_) => None,
        }
    }

    /// Gives `entity` the value `component` of type `component_type`, in
    /// place of the one it had. The type is registered if it was not.
    pub fn insert(&mut self, component_type: ComponentTypeId, entity: Entity, component: C)
        ensures
            final(self)@ == with_component(old(self)@, component_type, entity, component),
    {
        self.register_component(component_type);
        match self.storage_mut(component_type) {
            Some(storage) => {
                storage.insert(entity, component);
            },
            None => {},
        }
        assert(self@ =~= with_component(old(self)@, component_type, entity, component));
    }

    /// Takes the component of type `component_type` from `entity`. Nothing
    /// changes where the type is not registered or the entity has none.
    pub fn remove(&mut self, component_type: ComponentTypeId, entity: &Entity)
        ensures
            final(self)@ == without_component(old(self)@, component_type, *entity),
    {
        match self.storage_mut(component_type) {
            Some(storage) => {
                storage.remove(entity);
            },
            None => {},
        }
    }

    /// The component of type `component_type` that `entity` has, if the type
    /// is registered and the entity has one.
    pub fn get(&self, component_type: ComponentTypeId, entity: &Entity) -> (component: Option<&C>)
        ensures
            match component {
                Some(value) => component_of(self@, component_type, *entity) == Some(*value),
                None => component_of(self@, component_type, *entity).is_none(),
            },
    {
        match self.storage(component_type) {
            Some(storage) => storage.get(entity),
            None => None,
        }
    }

    /// The component of type `component_type` that `entity` has, if any, to
    /// be changed in place: what the caller leaves behind the reference is
    /// the entity's new value, and nothing else changes.
    pub fn get_mut(&mut self, component_type: ComponentTypeId, entity: &Entity) -> (component:
        Option<&mut C>)
        ensures
            match component {
                Some(value) => {
                    &&& component_of(old(self)@, component_type, *entity) == Some(*value)
                    &&& final(self)@ == with_component(
                        old(self)@,
                        component_type,
                        *entity,
                        *final(value),
                    )
                },
                None => {
                    &&& component_of(old(self)@, component_type, *entity).is_none()
                    &&& final(self)@ == old(self)@
                },
            },
    {
        match self.storage_mut(component_type) {
            Some(storage) => storage.get_mut(entity),
            None => None,
        }
    }
}

/// What a registry of components offers, for code that is written against
/// the operations and not against [`ComponentManager`] itself.
pub trait ComponentManagerTrait<C: Component> {
    /// The mathematical value of the registry.
    spec fn registry(&self) -> Registry<C>;

    /// Registers a component type with an empty store. A type that is
    /// registered already keeps its store.
    fn register_component(&mut self, component_type: ComponentTypeId)
        ensures
            final(self).registry() == with_type(old(self).registry(), component_type),
    ;

    /// Gives `entity` the value `component` of type `component_type`, in
    /// place of the one it had. The type is registered if it was not.
    fn insert_component(&mut self, component_type: ComponentTypeId, entity: Entity, component: C)
        ensures
            final(self).registry() == with_component(
                old(self).registry(),
                component_type,
                entity,
                component,
            ),
    ;

    /// Takes the component of type `component_type` from `entity`, if it
    /// has one.
    fn remove_component(&mut self, component_type: ComponentTypeId, entity: &Entity)
        ensures
            final(self).registry() == without_component(
                old(self).registry(),
                component_type,
                *entity,
            ),
    ;

    /// The component of type `component_type` that `entity` has, if any.
    fn get_component(&self, component_type: ComponentTypeId, entity: &Entity) -> (component:
        Option<&C>)
        ensures
            match component {
                Some(value) => component_of(self.registry(), component_type, *entity) == Some(
                    *value,
                ),
                None => component_of(self.registry(), component_type, *entity).is_none(),
            },
    ;

    /// The component of type `component_type` that `entity` has, if any, to
    /// be changed in place.
    fn get_component_mut(&mut self, component_type: ComponentTypeId, entity: &Entity) -> (component:
        Option<&mut C>)
        ensures
            match component {
                Some(value) => {
                    &&& component_of(old(self).registry(), component_type, *entity) == Some(
                        *value,
                    )
                    &&& final(self).registry() == with_component(
                        old(self).registry(),
                        component_type,
                        *entity,
                        *final(value),
                    )
                },
                None => {
                    &&& component_of(old(self).registry(), component_type, *entity).is_none()
                    &&& final(self).registry() == old(self).registry()
                },
            },
    ;
}

impl<C: Component> ComponentManagerTrait<C> for ComponentManager<C> {
    open spec fn registry(&self) -> Registry<C> {
        self@
    }

    fn register_component(&mut self, component_type: ComponentTypeId) {
        ComponentManager::register_component(self, component_type);
    }

    fn insert_component(&mut self, component_type: ComponentTypeId, entity: Entity, component: C) {
        self.insert(component_type, entity, component);
    }

    fn remove_component(&mut self, component_type: ComponentTypeId, entity: &Entity) {
        self.remove(component_type, entity);
    }

    fn get_component(&self, component_type: ComponentTypeId, entity: &Entity) -> (component:
        Option<&C>) {
        self.get(component_type, entity)
    }

    fn get_component_mut(&mut self, component_type: ComponentTypeId, entity: &Entity) -> (component:
        Option<&mut C>) {
        self.get_mut(component_type, entity)
    }
}

} // verus!

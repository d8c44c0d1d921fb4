//! Allocation and recycling of entity identifiers.

use vstd::prelude::*;

verus! {

/// An opaque identifier of one simulated object. It carries no data.
pub type Entity = u32;

/// One call on an entity manager.
pub enum EntityCall {
    /// `create_entity`.
    Create,
    /// `destroy_entity` of the identifier.
    Destroy(Entity),
}

/// The mathematical value of an entity manager.
pub struct EntityState {
    /// The identifier that is issued next when the pool is empty. Every
    /// identifier below it has been issued at least once.
    pub next_fresh: nat,
    /// The destroyed identifiers that wait to be handed out again, in the
    /// order in which they were destroyed.
    pub pool: Seq<Entity>,
}

impl EntityState {
    /// The state of a manager that has issued nothing.
    pub open spec fn initial() -> EntityState {
        EntityState { next_fresh: 0, pool: Seq::empty() }
    }

    /// An identifier is live when it has been issued and does not wait in the
    /// pool.
    pub open spec fn is_live(self, entity: Entity) -> bool {
        entity < self.next_fresh && !self.pool.contains(entity)
    }

    /// The set of live identifiers.
    pub open spec fn live(self) -> Set<Entity> {
        Set::new(|entity: Entity| self.is_live(entity))
    }

    /// The pool holds each identifier at most once and only identifiers that
    /// were issued, and the next fresh identifier fits its machine integer.
    pub open spec fn wf(self) -> bool {
        &&& self.next_fresh <= u32::MAX
        &&& self.pool.no_duplicates()
        &&& forall|i: int| 0 <= i < self.pool.len() ==> (#[trigger] self.pool[i]) < self.next_fresh
    }

    /// Whether an identifier can be handed out: one waits in the pool, or
    /// the fresh identifiers are not used up.
    pub open spec fn has_room(self) -> bool {
        self.pool.len() > 0 || self.next_fresh < u32::MAX
    }

    /// The identifier that `create_entity` hands out: the one destroyed last
    /// if the pool holds any, otherwise the next fresh one.
    pub open spec fn next_created(self) -> Entity {
        if self.pool.len() > 0 {
            self.pool.last()
        } else {
            self.next_fresh as Entity
        }
    }

    /// The state after `create_entity`.
    pub open spec fn created(self) -> EntityState {
        if self.pool.len() > 0 {
            EntityState { pool: self.pool.drop_last(), ..self }
        } else {
            EntityState { next_fresh: self.next_fresh + 1, ..self }
        }
    }

    /// The state after `destroy_entity`: a live identifier joins the pool,
    /// and any other leaves the state as it is.
    pub open spec fn destroyed(self, entity: Entity) -> EntityState {
        if self.is_live(entity) {
            EntityState { pool: self.pool.push(entity), ..self }
        } else {
            self
        }
    }

    /// The state after one call.
    pub open spec fn after(self, call: EntityCall) -> EntityState {
        match call {
            EntityCall::Create => self.created(),
            EntityCall::Destroy(entity) => self.destroyed(entity),
        }
    }

    /// The state of a manager on which `calls` were made, in their order,
    /// since it was new.
    pub open spec fn after_all(calls: Seq<EntityCall>) -> EntityState
        decreases calls.len(),
    {
        if calls.len() == 0 {
            EntityState::initial()
        } else {
            EntityState::after_all(calls.drop_last()).after(calls.last())
        }
    }

    /// Every `create_entity` among `calls` found an identifier to hand out.
    pub open spec fn room_throughout(calls: Seq<EntityCall>) -> bool {
        forall|k: int|
            0 <= k < calls.len() && calls[k] is Create ==> #[trigger] EntityState::after_all(
                calls.take(k),
            ).has_room()
    }
}

/// `create_entity` hands out an identifier that is not live, and makes it
/// live; no other identifier becomes or ceases to be live.
pub proof fn lemma_created_was_not_live(state: EntityState)
    requires
        state.wf(),
        state.has_room(),
    ensures
        state.created().wf(),
        !state.is_live(state.next_created()),
        state.created().live() == state.live().insert(state.next_created()),
{
    let entity = state.next_created();
    let after = state.created();
    if state.pool.len() > 0 {
        let last = state.pool.len() - 1;
        assert(state.pool[last] == entity);
        assert forall|e: Entity| state.pool.contains(e) <==> (e == entity || after.pool.contains(
            e,
        )) by {
            if state.pool.contains(e) && e != entity {
                let j = choose|j: int| 0 <= j < state.pool.len() && state.pool[j] == e;
                assert(after.pool[j] == e);
            }
            if after.pool.contains(e) {
                let j = choose|j: int| 0 <= j < after.pool.len() && after.pool[j] == e;
                assert(state.pool[j] == e);
            }
        }
        assert(!after.pool.contains(entity)) by {
            if after.pool.contains(entity) {
                let j = choose|j: int| 0 <= j < after.pool.len() && after.pool[j] == entity;
                assert(state.pool[j] == entity);
            }
        }
    } else {
        assert forall|e: Entity| !state.pool.contains(e) by {}
    }
    assert(after.live() =~= state.live().insert(entity));
}

/// `destroy_entity` makes its identifier cease to be live, and changes the
/// liveness of no other.
pub proof fn lemma_destroyed_is_not_live(state: EntityState, entity: Entity)
    requires
        state.wf(),
    ensures
        state.destroyed(entity).wf(),
        state.destroyed(entity).live() == state.live().remove(entity),
{
    let after = state.destroyed(entity);
    if state.is_live(entity) {
        assert(after.pool[state.pool.len() as int] == entity);
        assert forall|e: Entity| after.pool.contains(e) <==> (e == entity || state.pool.contains(
            e,
        )) by {
            if state.pool.contains(e) {
                let j = choose|j: int| 0 <= j < state.pool.len() && state.pool[j] == e;
                assert(after.pool[j] == e);
            }
        }
    }
    assert(after.live() =~= state.live().remove(entity));
}

/// Whatever calls are made on a new manager, it stays well formed.
pub proof fn lemma_calls_keep_wf(calls: Seq<EntityCall>)
    requires
        EntityState::room_throughout(calls),
    ensures
        EntityState::after_all(calls).wf(),
    decreases calls.len(),
{
    if calls.len() > 0 {
        let earlier = calls.drop_last();
        assert forall|k: int| 0 <= k < earlier.len() && earlier[k] is Create implies (
        #[trigger] EntityState::after_all(earlier.take(k))).has_room() by {
            assert(earlier.take(k) =~= calls.take(k));
            assert(calls[k] is Create);
        }
        lemma_calls_keep_wf(earlier);
        let state = EntityState::after_all(earlier);
        match calls.last() {
            EntityCall::Create => {
                assert(calls.take(calls.len() - 1) =~= earlier);
                assert(calls[calls.len() - 1] is Create);
                lemma_created_was_not_live(state);
            },
            EntityCall::Destroy(entity) => {
                lemma_destroyed_is_not_live(state, entity);
            },
        }
    }
}

/// An identifier that is live stays live until it is destroyed: if it is
/// live before call `from` and none of the calls from `from` up to `to`
/// destroys it, it is live before call `to`.
pub proof fn lemma_live_until_destroyed(
    calls: Seq<EntityCall>,
    entity: Entity,
    from: int,
    to: int,
)
    requires
        EntityState::room_throughout(calls),
        0 <= from <= to <= calls.len(),
        EntityState::after_all(calls.take(from)).is_live(entity),
        forall|k: int| from <= k < to ==> calls[k] != EntityCall::Destroy(entity),
    ensures
        EntityState::after_all(calls.take(to)).is_live(entity),
    decreases to - from,
{
    if from < to {
        lemma_live_until_destroyed(calls, entity, from, to - 1);
        let earlier = calls.take(to - 1);
        let state = EntityState::after_all(earlier);
        assert(calls.take(to).drop_last() =~= earlier);
        assert(calls.take(to).last() == calls[to - 1]);
        assert forall|k: int| 0 <= k < earlier.len() && earlier[k] is Create implies (
        #[trigger] EntityState::after_all(earlier.take(k))).has_room() by {
            assert(earlier.take(k) =~= calls.take(k));
            assert(calls[k] is Create);
        }
        lemma_calls_keep_wf(earlier);
        match calls[to - 1] {
            EntityCall::Create => {
                lemma_created_was_not_live(state);
                assert(state.created().live().contains(entity));
            },
            EntityCall::Destroy(other) => {
                lemma_destroyed_is_not_live(state, other);
                assert(state.destroyed(other).live().contains(entity));
            },
        }
    }
}

/// No identifier is live twice. Whatever calls are made on a new manager, if
/// two calls of `create_entity` hand out the same identifier, that
/// identifier was destroyed between them.
pub proof fn lemma_no_identifier_is_live_twice(calls: Seq<EntityCall>, first: int, second: int)
    requires
        EntityState::room_throughout(calls),
        0 <= first < second < calls.len(),
        calls[first] is Create,
        calls[second] is Create,
        EntityState::after_all(calls.take(first)).next_created() == EntityState::after_all(
            calls.take(second),
        ).next_created(),
    ensures
        exists|k: int|
            first < k < second && #[trigger] calls[k] == EntityCall::Destroy(
                EntityState::after_all(calls.take(first)).next_created(),
            ),
{
    let before = EntityState::after_all(calls.take(first));
    let entity = before.next_created();
    if forall|k: int| first < k < second ==> calls[k] != EntityCall::Destroy(entity) {
        assert forall|k: int| 0 <= k < calls.take(first).len() && calls.take(first)[k]
            is Create implies (#[trigger] EntityState::after_all(
            calls.take(first).take(k),
        )).has_room() by {
            assert(calls.take(first).take(k) =~= calls.take(k));
            assert(calls[k] is Create);
        }
        lemma_calls_keep_wf(calls.take(first));
        lemma_created_was_not_live(before);
        assert(calls.take(first + 1).drop_last() =~= calls.take(first));
        assert(calls.take(first + 1).last() == calls[first]);
        assert(before.created().live().contains(entity));
        lemma_live_until_destroyed(calls, entity, first + 1, second);
        let again = EntityState::after_all(calls.take(second));
        assert forall|k: int| 0 <= k < calls.take(second).len() && calls.take(second)[k]
            is Create implies (#[trigger] EntityState::after_all(
            calls.take(second).take(k),
        )).has_room() by {
            assert(calls.take(second).take(k) =~= calls.take(k));
            assert(calls[k] is Create);
        }
        lemma_calls_keep_wf(calls.take(second));
        lemma_created_was_not_live(again);
    }
}

/// Hands out entity identifiers and takes them back.
///
/// Identifiers that were destroyed wait in a pool and are handed out again,
/// last in, first out, before a fresh one is issued. The manager tracks which
/// identifiers are live, so destroying one twice leaves the pool unchanged.
pub struct EntityManager {
    next_entity: Entity,
    recycled_entities: Vec<Entity>,
    alive: Vec<bool>,
}

impl View for EntityManager {
    type V = EntityState;

    closed spec fn view(&self) -> EntityState {
        EntityState { next_fresh: self.next_entity as nat, pool: self.recycled_entities@ }
    }
}

impl EntityManager {
    /// The identifier that is issued next when the pool is empty. Every
    /// identifier below it has been issued at least once.
    pub open spec fn next_fresh(&self) -> nat {
        self@.next_fresh
    }

    /// The destroyed identifiers that wait to be handed out again, in the
    /// order in which they were destroyed.
    pub open spec fn pool(&self) -> Seq<Entity> {
        self@.pool
    }

    /// An identifier is live when it has been issued and does not wait in the
    /// pool.
    pub open spec fn is_live(&self, entity: Entity) -> bool {
        self@.is_live(entity)
    }

    /// The set of live identifiers.
    pub open spec fn live(&self) -> Set<Entity> {
        self@.live()
    }

    /// A well-formed manager has a well-formed value.
    pub proof fn lemma_value_is_wf(&self)
        requires
            self.wf(),
        ensures
            self@.wf(),
    {
    }

    /// The pool holds each identifier at most once and only identifiers that
    /// were issued, and the liveness flags agree with it.
    pub closed spec fn wf(&self) -> bool {
        &&& self.alive@.len() == self.next_entity
        &&& self.recycled_entities@.no_duplicates()
        &&& forall|i: int|
            0 <= i < self.recycled_entities@.len() ==> (#[trigger] self.recycled_entities@[i])
                < self.next_entity
        &&& forall|e: Entity|
            e < self.next_entity ==> (#[trigger] self.alive@[e as int]
                <==> !self.recycled_entities@.contains(e))
    }

    /// A manager that has issued nothing.
    pub fn new() -> (manager: Self)
        ensures
            manager.wf(),
            manager@ == EntityState::initial(),
            manager.next_fresh() == 0,
            manager.pool() == Seq::<Entity>::empty(),
            manager.live() == Set::<Entity>::empty(),
    {
        let manager = Self { next_entity: 0, recycled_entities: Vec::new(), alive: Vec::new() };
        assert(manager.live() =~= Set::<Entity>::empty());
        manager
    }

    /// Whether `create_entity` can hand out an identifier: one waits in the
    /// pool, or the fresh identifiers are not used up.
    pub open spec fn has_room(&self) -> bool {
        self@.has_room()
    }

    /// Tells whether `create_entity` may be called.
    pub fn can_create(&self) -> (room: bool)
        ensures
            room == self.has_room(),
    {
        self.recycled_entities.len() > 0 || self.next_entity < u32::MAX
    }

    /// Tells whether `entity` is live.
    pub fn is_alive(&self, entity: Entity) -> (live: bool)
        requires
            self.wf(),
        ensures
            live == self.is_live(entity),
    {
        if entity < self.next_entity {
            self.alive[entity as usize]
        } else {
            false
        }
    }

    /// Hands out an identifier that is not live: the one destroyed last if
    /// the pool holds any, otherwise the next fresh one.
    pub fn create_entity(&mut self) -> (entity: Entity)
        requires
            old(self).wf(),
            old(self).has_room(),
        ensures
            final(self).wf(),
            entity == old(self)@.next_created(),
            final(self)@ == old(self)@.created(),
            !old(self).is_live(entity),
            final(self).live() == old(self).live().insert(entity),
            old(self).pool().len() > 0 ==> {
                &&& entity == old(self).pool().last()
                &&& final(self).pool() == old(self).pool().drop_last()
                &&& final(self).next_fresh() == old(self).next_fresh()
            },
            old(self).pool().len() == 0 ==> {
                &&& entity == old(self).next_fresh()
                &&& final(self).pool() == old(self).pool()
                &&& final(self).next_fresh() == old(self).next_fresh() + 1
            },
    {
        proof {
            lemma_created_was_not_live(self@);
        }
        match self.recycled_entities.pop() {
            Some(entity) => {
                self.alive.set(entity as usize, true);
                assert(self.recycled_entities@ =~= old(self)@.pool.drop_last());
                assert forall|e: Entity| e < self.next_entity implies (
                #[trigger] self.alive@[e as int] <==> !self.recycled_entities@.contains(e)) by {
                    assert(self@.is_live(e) <==> old(self)@.live().insert(entity).contains(e));
                }
                entity
            },
            None => {
                let entity = self.next_entity;
                self.next_entity = entity + 1;
                self.alive.push(true);
                assert forall|e: Entity| e < self.next_entity implies (
                #[trigger] self.alive@[e as int] <==> !self.recycled_entities@.contains(e)) by {
                    assert(self@.is_live(e) <==> old(self)@.live().insert(entity).contains(e));
                }
                entity
            },
        }
    }

    /// Returns a live identifier to the pool and reports `true`. An
    /// identifier that is not live is rejected: nothing changes and the
    /// result is `false`.
    pub fn destroy_entity(&mut self, entity: Entity) -> (destroyed: bool)
        requires
            old(self).wf(),
        ensures
            final(self).wf(),
            final(self)@ == old(self)@.destroyed(entity),
            destroyed == old(self).is_live(entity),
            final(self).next_fresh() == old(self).next_fresh(),
            destroyed ==> final(self).pool() == old(self).pool().push(entity),
            !destroyed ==> final(self).pool() == old(self).pool(),
            final(self).live() == old(self).live().remove(entity),
    {
        proof {
            lemma_destroyed_is_not_live(self@, entity);
        }
        if entity >= self.next_entity || !self.alive[entity as usize] {
            return false;
        }
        self.alive.set(entity as usize, false);
        self.recycled_entities.push(entity);
        assert forall|e: Entity| e < self.next_entity implies (#[trigger] self.alive@[e as int]
            <==> !self.recycled_entities@.contains(e)) by {
            assert(self@.is_live(e) <==> old(self)@.live().remove(entity).contains(e));
        }
        true
    }
}

} // verus!

//! The world store: typed singletons, per-entity components, the
//! entity-to-type index, and the deferred command queue.
//!
//! Runtime type identity is a plain `u64` key. Resources live in one map
//! keyed by type key; components live in one map keyed by (type key,
//! entity); the index records, per entity, the set of type keys stored
//! for it. The store keeps the index exactly consistent with the
//! component map — that consistency is what makes query resolution
//! correct, and it is part of the store's well-formedness.

use vstd::prelude::*;

use crate::component::Component;
use crate::entity::{Entity, SlotKey};
use crate::event::{EventArgs, EventWriter};
use crate::keymap::{KeySet, KeyedMap};

verus! {

/// A change of the world itself: raised while the raiser should not
/// mutate the world directly, queued, and committed at the next flush
/// point.
pub enum Command<V> {
    /// Store a resource under a type key at the next flush.
    StoreResource(u64, V),
    /// Store a component for an entity under a type key at the next
    /// flush.
    StoreComponent(Entity, u64, V),
}

/// Lifecycle notifications the store publishes about entities.
#[derive(Debug, Clone, Copy)]
pub enum EntityEvent {
    /// An entity received its first component.
    Created(Entity),
    /// A component of the given type key was stored for the entity.
    ComponentAdded(Entity, u64),
    /// Reserved for entity removal, which the store does not yet
    /// perform.
    Destroyed(Entity),
}

impl EventArgs for EntityEvent {

}

/// The mathematical state of a world: what every contract of the store
/// speaks about.
#[verifier::ext_equal]
pub ghost struct WorldView<V> {
    /// Singleton values by type key.
    pub resources: Map<u64, V>,
    /// Component values by (type key, entity).
    pub components: Map<SlotKey, V>,
    /// The index: per entity, the set of type keys stored for it.
    pub typesets: Map<Entity, Set<u64>>,
    /// Deferred commands, oldest first.
    pub commands: Seq<Command<V>>,
    /// Entity lifecycle events published so far.
    pub entity_events: Seq<EntityEvent>,
}

impl<V> WorldView<V> {
    /// A component of type `t` is stored for entity `e`.
    pub open spec fn has_component(self, t: u64, e: Entity) -> bool {
        self.components.contains_key(SlotKey(t, e))
    }

    /// The index lists type `t` for entity `e`.
    pub open spec fn in_index(self, t: u64, e: Entity) -> bool {
        self.typesets.contains_key(e) && self.typesets[e].contains(t)
    }

    /// The state after storing a resource: only the type's singleton
    /// slot changes.
    pub open spec fn with_resource(self, key: u64, value: V) -> WorldView<V> {
        WorldView { resources: self.resources.insert(key, value), ..self }
    }

    /// The index entry of entity `e`, or the empty set if the store has
    /// not seen `e` yet.
    pub open spec fn typeset_or_empty(self, e: Entity) -> Set<u64> {
        if self.typesets.contains_key(e) {
            self.typesets[e]
        } else {
            Set::empty()
        }
    }

    /// The lifecycle events one component insertion publishes: a
    /// creation notice the first time an entity is seen, then the
    /// addition notice.
    pub open spec fn insertion_events(self, e: Entity, t: u64) -> Seq<EntityEvent> {
        if self.typesets.contains_key(e) {
            seq![EntityEvent::ComponentAdded(e, t)]
        } else {
            seq![EntityEvent::Created(e), EntityEvent::ComponentAdded(e, t)]
        }
    }

    /// The state after storing a component: the value lands in its
    /// (type, entity) slot, the index learns the pairing, and the
    /// lifecycle events go out.
    pub open spec fn with_component(self, e: Entity, t: u64, value: V) -> WorldView<V> {
        WorldView {
            components: self.components.insert(SlotKey(t, e), value),
            typesets: self.typesets.insert(e, self.typeset_or_empty(e).insert(t)),
            entity_events: self.entity_events + self.insertion_events(e, t),
            ..self
        }
    }

    /// The state after replacing the value in one existing (type,
    /// entity) slot, as mutation through a borrowed component handle
    /// does: the index and the event log do not move.
    pub open spec fn with_component_value(self, e: Entity, t: u64, value: V) -> WorldView<V> {
        WorldView { components: self.components.insert(SlotKey(t, e), value), ..self }
    }

    /// The state after queueing one deferred command.
    pub open spec fn with_command(self, c: Command<V>) -> WorldView<V> {
        WorldView { commands: self.commands.push(c), ..self }
    }

    /// The state with the command queue emptied and nothing else
    /// touched.
    pub open spec fn drained(self) -> WorldView<V> {
        WorldView { commands: Seq::empty(), ..self }
    }

    /// The effect of committing one deferred command.
    pub open spec fn apply_command(self, c: Command<V>) -> WorldView<V> {
        match c {
            Command::StoreResource(key, value) => self.with_resource(key, value),
            Command::StoreComponent(e, t, value) => self.with_component(e, t, value),
        }
    }

    /// The effect of committing a queue of commands, oldest first.
    pub open spec fn apply_all(self, cmds: Seq<Command<V>>) -> WorldView<V>
        decreases cmds.len(),
    {
        if cmds.len() == 0 {
            self
        } else {
            self.apply_command(cmds.first()).apply_all(cmds.drop_first())
        }
    }
}

/// The entity index as a map of key sets.
spec fn index_view(m: Map<Entity, KeySet>) -> Map<Entity, Set<u64>> {
    Map::new(|e: Entity| m.contains_key(e), |e: Entity| m[e]@)
}

/// The entity index lists exactly the (type, entity) pairs the component
/// map stores.
spec fn index_agrees<V>(
    components: Map<SlotKey, V>,
    typesets: Map<Entity, Set<u64>>,
) -> bool {
    &&& forall|t: u64, e: Entity|
        #[trigger] components.contains_key(SlotKey(t, e)) ==> typesets.contains_key(e)
            && typesets[e].contains(t)
    &&& forall|t: u64, e: Entity|
        typesets.contains_key(e) && #[trigger] typesets[e].contains(t)
            ==> components.contains_key(SlotKey(t, e))
}

/// The single shared store every system works against.
pub struct World<V> {
    resources: KeyedMap<u64, V>,
    components: KeyedMap<SlotKey, V>,
    entities: KeyedMap<Entity, KeySet>,
    commands: Vec<Command<V>>,
    entity_events: EventWriter<EntityEvent>,
}

impl<V> View for World<V> {
    type V = WorldView<V>;

    closed spec fn view(&self) -> WorldView<V> {
        WorldView {
            resources: self.resources@,
            components: self.components@,
            typesets: index_view(self.entities@),
            commands: self.commands@,
            entity_events: self.entity_events@,
        }
    }
}

impl<V> World<V> {
    /// The store's internal maps denote their mathematical views, and
    /// the entity index agrees exactly with the component map.
    pub closed spec fn wf(&self) -> bool {
        &&& self.resources.wf()
        &&& self.components.wf()
        &&& self.entities.wf()
        &&& index_agrees(self.components@, index_view(self.entities@))
    }

    /// An empty world: no resources, no components, no entities, no
    /// pending commands, no published events.
    pub fn new() -> (r: Self)
        ensures
            r.wf(),
            r@.resources == Map::<u64, V>::empty(),
            r@.components == Map::<SlotKey, V>::empty(),
            r@.typesets == Map::<Entity, Set<u64>>::empty(),
            r@.commands == Seq::<Command<V>>::empty(),
            r@.entity_events == Seq::<EntityEvent>::empty(),
    {
        let r = World {
            resources: KeyedMap::new(),
            components: KeyedMap::new(),
            entities: KeyedMap::new(),
            commands: Vec::new(),
            entity_events: EventWriter::new(),
        };
        proof {
            assert(r@.typesets =~= Map::<Entity, Set<u64>>::empty());
        }
        r
    }

    /// Stores a singleton under its type key, replacing any previous
    /// value of that type.
    pub fn store_resource(&mut self, key: u64, resource: V)
        requires
            old(self).wf(),
        ensures
            final(self).wf(),
            final(self)@ == old(self)@.with_resource(key, resource),
    {
        self.resources.insert(key, resource);
        proof {
            assert(self@ =~= old(self)@.with_resource(key, resource));
        }
    }

    /// The singleton stored under `key`, if any; an absent resource is
    /// reported, never defaulted.
    pub fn get_resource(&self, key: u64) -> (r: Option<&V>)
        requires
            self.wf(),
        ensures
            match r {
                Some(v) => self@.resources.contains_key(key) && *v == self@.resources[key],
                None => !self@.resources.contains_key(key),
            },
    {
        self.resources.get(key)
    }

    /// Exclusive access to the singleton stored under `key`, if any: the
    /// world afterwards holds whatever the caller leaves behind the
    /// returned handle, and nothing else changes.
    pub fn get_resource_mut(&mut self, key: u64) -> (r: Option<&mut V>)
        requires
            old(self).wf(),
        ensures
            final(self).wf(),
            match r {
                Some(v) => old(self)@.resources.contains_key(key) && *v == old(
                    self,
                )@.resources[key] && final(self)@ == old(self)@.with_resource(key, *final(v)),
                None => !old(self)@.resources.contains_key(key) && final(self)@ == old(self)@,
            },
    {
        self.resources.get_mut(key)
    }

    /// Stores a component for `entity` under `type_key`, replacing any
    /// previous value of that type for that entity, updating the
    /// entity-to-type index, and publishing the lifecycle events.
    pub fn store_component(&mut self, entity: Entity, type_key: u64, component: V) where
        V: Component

        requires
            old(self).wf(),
        ensures
            final(self).wf(),
            final(self)@ == old(self)@.with_component(entity, type_key, component),
    {
        if !self.entities.contains_key(entity) {
            self.entity_events.send(EntityEvent::Created(entity));
        }
        match self.entities.get_mut(entity) {
            Some(types) => {
                types.insert(type_key);
            },
            None => {
                let mut types = KeySet::new();
                types.insert(type_key);
                self.entities.insert(entity, types);
            },
        }
        self.components.insert(SlotKey(type_key, entity), component);
        self.entity_events.send(EntityEvent::ComponentAdded(entity, type_key));
        proof {
            let pre = old(self)@;
            let post = pre.with_component(entity, type_key, component);
            assert(self@.entity_events =~= post.entity_events);
            assert(self@.typesets =~= post.typesets);
            assert(self@ =~= post);
            assert(index_agrees(self.components@, index_view(self.entities@))) by {
                let cs = self.components@;
                let ts = index_view(self.entities@);
                assert forall|t: u64, e: Entity| #[trigger]
                    cs.contains_key(SlotKey(t, e)) implies ts.contains_key(e) && ts[e].contains(t) by {
                    if t == type_key && e == entity {
                    } else {
                        assert(old(self)@.has_component(t, e));
                    }
                }
                assert forall|t: u64, e: Entity|
                    ts.contains_key(e) && #[trigger] ts[e].contains(t) implies cs.contains_key(
                    SlotKey(t, e),
                ) by {
                    if e == entity {
                        if t != type_key {
                            assert(old(self)@.in_index(t, e));
                        }
                    } else {
                        assert(old(self)@.in_index(t, e));
                    }
                }
            }
        }
    }

    /// The component of type `type_key` stored for `entity`, if any.
    pub fn get_component(&self, entity: &Entity, type_key: u64) -> (r: Option<&V>)
        requires
            self.wf(),
        ensures
            match r {
                Some(v) => self@.has_component(type_key, *entity) && *v == self@.components[SlotKey(type_key, *entity)],
                None => !self@.has_component(type_key, *entity),
            },
    {
        self.components.get(SlotKey(type_key, *entity))
    }

    /// Exclusive access to the component of type `type_key` stored for
    /// `entity`, if any: the slot afterwards holds whatever the caller
    /// leaves behind the returned handle, and nothing else — not even
    /// another entity's component of the same type — changes.
    pub fn get_component_mut(&mut self, entity: &Entity, type_key: u64) -> (r: Option<&mut V>)
        requires
            old(self).wf(),
        ensures
            final(self).wf(),
            match r {
                Some(v) => old(self)@.has_component(type_key, *entity) && *v == old(
                    self,
                )@.components[SlotKey(type_key, *entity)] && final(self)@ == old(
                    self,
                )@.with_component_value(*entity, type_key, *final(v)),
                None => !old(self)@.has_component(type_key, *entity) && final(self)@ == old(
                    self,
                )@,
            },
    {
        self.components.get_mut(SlotKey(type_key, *entity))
    }

    /// The entities holding a component of type `type_key`, each exactly
    /// once, in no promised order.
    pub fn get_entities_with_component(&self, type_key: u64) -> (r: Vec<Entity>)
        requires
            self.wf(),
        ensures
            r@.no_duplicates(),
            forall|e: Entity| r@.contains(e) <==> self@.has_component(type_key, e),
    {
        let keys = self.components.keys();
        let mut r: Vec<Entity> = Vec::new();
        let n = keys.len();
        let mut i: usize = 0;
        while i < n
            invariant
                n == keys@.len(),
                0 <= i <= n,
                r@.no_duplicates(),
                forall|e: Entity|
                    r@.contains(e) <==> exists|j: int|
                        0 <= j < i && keys@[j] == SlotKey(type_key, e),
            decreases n - i,
        {
            let k = keys[i];
            let ghost r0 = r@;
            if k.0 == type_key && !contains_entity(&r, k.1) {
                r.push(k.1);
                proof {
                    assert(r@ == r0.push(k.1));
                    assert forall|e: Entity| r@.contains(e) <==> (r0.contains(e) || e == k.1) by {
                        if r@.contains(e) {
                            let j = choose|j: int| 0 <= j < r@.len() && r@[j] == e;
                            if j < r0.len() {
                                assert(r0[j] == e);
                                assert(r0.contains(e));
                            }
                        }
                        if r0.contains(e) {
                            let j = choose|j: int| 0 <= j < r0.len() && r0[j] == e;
                            assert(r@[j] == e);
                        }
                        if e == k.1 {
                            assert(r@[r@.len() - 1] == e);
                        }
                    }
                    assert(r@.no_duplicates()) by {
                        assert forall|m: int, n2: int|
                            0 <= m < n2 < r@.len() implies r@[m] != r@[n2] by {
                            if n2 < r0.len() {
                                assert(r0[m] == r@[m] && r0[n2] == r@[n2]);
                            } else {
                                assert(r@[n2] == k.1);
                                if r@[m] == k.1 {
                                    assert(r0[m] == k.1);
                                    assert(r0.contains(k.1));
                                }
                            }
                        }
                    }
                    assert forall|e: Entity|
                        r@.contains(e) <==> exists|j: int|
                            0 <= j < i + 1 && keys@[j] == SlotKey(type_key, e) by {
                        if r@.contains(e) {
                            if e == k.1 {
                                assert(keys@[i as int] == SlotKey(type_key, e));
                            } else {
                                assert(r0.contains(e));
                            }
                        }
                        if exists|j: int| 0 <= j < i + 1 && keys@[j] == SlotKey(type_key, e) {
                            let j = choose|j: int|
                                0 <= j < i + 1 && keys@[j] == SlotKey(type_key, e);
                            if j == i {
                                assert(e == k.1);
                            } else {
                                assert(r0.contains(e));
                            }
                        }
                    }
                }
            } else {
                proof {
                    assert forall|e: Entity|
                        r@.contains(e) <==> exists|j: int|
                            0 <= j < i + 1 && keys@[j] == SlotKey(type_key, e) by {
                        if exists|j: int| 0 <= j < i + 1 && keys@[j] == SlotKey(type_key, e) {
                            let j = choose|j: int| 0 <= j < i + 1 && keys@[j] == SlotKey(type_key, e);
                            if j == i {
                                assert(k == SlotKey(type_key, e));
                                assert(r@.contains(e));
                            }
                        }
                    }
                }
            }
            i += 1;
        }
        proof {
            assert forall|e: Entity| r@.contains(e) <==> self@.has_component(type_key, e) by {
                if r@.contains(e) {
                    let j = choose|j: int| 0 <= j < n && keys@[j] == SlotKey(type_key, e);
                    assert(keys@.contains(SlotKey(type_key, e)));
                }
                if self@.has_component(type_key, e) {
                    assert(keys@.contains(SlotKey(type_key, e)));
                    let j = choose|j: int| 0 <= j < keys@.len() && keys@[j] == SlotKey(type_key, e);
                }
            }
        }
        r
    }

    /// The set of type keys stored for `entity`, which must already hold
    /// at least one component: asking about an unknown entity is a
    /// misuse of the store's lifecycle contract.
    pub fn get_entity_components(&self, entity: &Entity) -> (r: &KeySet)
        requires
            self.wf(),
            self@.typesets.contains_key(*entity),
        ensures
            r@ == self@.typesets[*entity],
    {
        match self.entities.get(*entity) {
            Some(types) => types,
            None => vstd::pervasive::unreached(),
        }
    }

    /// Queues a deferred command; nothing else changes until the next
    /// flush point.
    pub fn queue_command(&mut self, command: Command<V>)
        requires
            old(self).wf(),
        ensures
            final(self).wf(),
            final(self)@ == old(self)@.with_command(command),
    {
        self.commands.push(command);
        proof {
            assert(self@ =~= old(self)@.with_command(command));
        }
    }

    /// Commits every queued command, oldest first, and leaves the queue
    /// empty. A command queued before this call is applied by it; a
    /// command queued during it (by none of the current command kinds)
    /// would be applied by it as well, matching a drain of the queue.
    pub fn apply_commands(&mut self) where V: Component
        requires
            old(self).wf(),
        ensures
            final(self).wf(),
            final(self)@ == old(self)@.drained().apply_all(old(self)@.commands),
            final(self)@.commands == Seq::<Command<V>>::empty(),
    {
        while self.commands.len() > 0
            invariant
                self.wf(),
                self@.drained().apply_all(self@.commands) == old(self)@.drained().apply_all(
                    old(self)@.commands,
                ),
            decreases self@.commands.len(),
        {
            let ghost pre = self@;
            let c = self.commands.remove(0);
            let ghost mid = self@;
            proof {
                assert(mid.commands =~= pre.commands.drop_first());
                assert(mid.drained() =~= pre.drained());
            }
            match c {
                Command::StoreResource(key, value) => {
                    self.store_resource(key, value);
                    proof {
                        assert(self@.drained() =~= pre.drained().apply_command(c));
                        assert(self@.commands == pre.commands.drop_first());
                    }
                },
                Command::StoreComponent(entity, type_key, value) => {
                    self.store_component(entity, type_key, value);
                    proof {
                        assert(self@.drained() =~= pre.drained().apply_command(c));
                        assert(self@.commands == pre.commands.drop_first());
                    }
                },
            }
            proof {
                assert(pre.commands.first() == c);
                assert(pre.drained().apply_all(pre.commands) == pre.drained().apply_command(
                    c,
                ).apply_all(pre.commands.drop_first()));
            }
        }
        proof {
            assert(self@.drained() =~= self@);
        }
    }

    /// The entity-to-type index lists exactly the (type, entity) pairs
    /// the component map stores: storing a component keeps the index
    /// up to date, so query resolution over the index reflects the
    /// components actually stored.
    pub proof fn lemma_index_agreement(&self)
        requires
            self.wf(),
        ensures
            forall|t: u64, e: Entity| #[trigger] self@.has_component(t, e) ==> self@.in_index(t, e),
            forall|t: u64, e: Entity| #[trigger] self@.in_index(t, e) ==> self@.has_component(t, e),
    {
        assert forall|t: u64, e: Entity| #[trigger] self@.has_component(t, e) implies self@.in_index(
            t,
            e,
        ) by {
            assert(self.components@.contains_key(SlotKey(t, e)));
        }
        assert forall|t: u64, e: Entity| #[trigger] self@.in_index(t, e) implies self@.has_component(
            t,
            e,
        ) by {
            assert(index_view(self.entities@)[e].contains(t));
        }
    }

    /// The entity lifecycle channel, for readers to attach to.
    pub fn entity_events(&self) -> (r: &EventWriter<EntityEvent>)
        ensures
            r@ == self@.entity_events,
    {
        &self.entity_events
    }
}

/// Resource round-trip: storing a value under a type key and reading
/// that key back yields exactly the stored value, in every world state.
pub proof fn lemma_resource_round_trip<V>(w: WorldView<V>, key: u64, value: V)
    ensures
        w.with_resource(key, value).resources.contains_key(key),
        w.with_resource(key, value).resources[key] == value,
{
}

/// Resource mutation: once a mutable handle on a stored resource is
/// mutated, a subsequent read of the same type key observes the mutated
/// value, not the one stored first.
pub proof fn lemma_resource_mutation<V>(w: WorldView<V>, key: u64, stored: V, mutated: V)
    ensures
        w.with_resource(key, stored).with_resource(key, mutated).resources[key] == mutated,
{
}

/// Component isolation: storing the same component type for two distinct
/// entities keeps two disjoint slots — reading each entity afterwards
/// yields its own value, unaffected by the other's.
pub proof fn lemma_component_isolation<V>(
    w: WorldView<V>,
    e1: Entity,
    e2: Entity,
    t: u64,
    v1: V,
    v2: V,
)
    requires
        e1 != e2,
    ensures
        w.with_component(e1, t, v1).with_component(e2, t, v2).has_component(t, e1),
        w.with_component(e1, t, v1).with_component(e2, t, v2).has_component(t, e2),
        w.with_component(e1, t, v1).with_component(e2, t, v2).components[SlotKey(t, e1)] == v1,
        w.with_component(e1, t, v1).with_component(e2, t, v2).components[SlotKey(t, e2)] == v2,
{
    assert(SlotKey(t, e1) != SlotKey(t, e2));
}

/// Committing a queue of commands with one more command at its end
/// commits the earlier commands first and that command last: a command
/// queued during a stage is applied by that stage's flush, after
/// everything queued before it.
pub proof fn lemma_flush_applies_queued<V>(w: WorldView<V>, cmds: Seq<Command<V>>, c: Command<V>)
    ensures
        w.apply_all(cmds.push(c)) == w.apply_all(cmds).apply_command(c),
    decreases cmds.len(),
{
    if cmds.len() == 0 {
        assert(cmds.push(c).drop_first() =~= Seq::<Command<V>>::empty());
        assert(cmds.push(c).first() == c);
        assert(w.apply_all(cmds.push(c)) == w.apply_command(c).apply_all(Seq::empty()));
        assert(w.apply_all(cmds) == w);
    } else {
        assert(cmds.push(c).first() == cmds.first());
        assert(cmds.push(c).drop_first() =~= cmds.drop_first().push(c));
        assert(w.apply_all(cmds.push(c)) == w.apply_command(cmds.first()).apply_all(
            cmds.drop_first().push(c),
        ));
        lemma_flush_applies_queued(w.apply_command(cmds.first()), cmds.drop_first(), c);
        assert(w.apply_all(cmds) == w.apply_command(cmds.first()).apply_all(cmds.drop_first()));
    }
}

/// A queued command is invisible until the flush point: queueing changes
/// no resource, component, index entry or event — systems still pending
/// in the queueing stage read the world as it was.
pub proof fn lemma_queued_command_invisible_before_flush<V>(w: WorldView<V>, c: Command<V>)
    ensures
        w.with_command(c).resources == w.resources,
        w.with_command(c).components == w.components,
        w.with_command(c).typesets == w.typesets,
        w.with_command(c).entity_events == w.entity_events,
{
}

/// A flush makes a queued resource visible: committing a queue whose
/// last command stores a resource leaves that resource in the world, so
/// every stage after the flush observes it.
pub proof fn lemma_flush_makes_queued_resource_visible<V>(
    w: WorldView<V>,
    cmds: Seq<Command<V>>,
    key: u64,
    value: V,
)
    ensures
        w.apply_all(cmds.push(Command::StoreResource(key, value))).resources.contains_key(key),
        w.apply_all(cmds.push(Command::StoreResource(key, value))).resources[key] == value,
{
    lemma_flush_applies_queued(w, cmds, Command::StoreResource(key, value));
}

/// Whether `entities` lists `entity`.
fn contains_entity(entities: &Vec<Entity>, entity: Entity) -> (r: bool)
    ensures
        r == entities@.contains(entity),
{
    let n = entities.len();
    let mut i: usize = 0;
    while i < n
        invariant
            n == entities@.len(),
            0 <= i <= n,
            forall|j: int| 0 <= j < i ==> entities@[j] != entity,
        decreases n - i,
    {
        if entities[i] == entity {
            assert(entities@.contains(entity));
            return true;
        }
        i += 1;
    }
    false
}

} // verus!

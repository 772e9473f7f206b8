use crate::components::model::{Model, ModelView};
use crate::components::name::Name;
use crate::ecs::slots::{
    lemma_set_positions_ascending, lemma_set_positions_complete, lemma_set_positions_len,
    lemma_set_positions_sound, set_count, set_positions,
};
use vstd::prelude::*;

verus! {

/// The kinds of component an entity can have.
#[derive(Clone, Copy, Debug, PartialEq, Eq, Structural)]
pub enum ComponentKind {
    Renderable,
    Name,
}

/// The entity store. An entity is a position; for each kind of component
/// there is one slot per entity, empty where the entity has no component of
/// that kind. Entities are only ever added, at the end.
pub struct World {
    pub(crate) model_components: Vec<Option<Model>>,
    pub(crate) name_components: Vec<Option<Name>>,
}

pub struct WorldView {
    pub models: Seq<Option<ModelView>>,
    pub names: Seq<Option<Seq<char>>>,
}

pub open spec fn model_view(model: Option<Model>) -> Option<ModelView> {
    match model {
        Some(m) => Some(m@),
        None => None,
    }
}

pub open spec fn name_view(name: Option<Name>) -> Option<Seq<char>> {
    match name {
        Some(n) => Some(n.0@),
        None => None,
    }
}

impl WorldView {
    pub open spec fn empty() -> WorldView {
        WorldView { models: Seq::empty(), names: Seq::empty() }
    }

    /// The number of entities.
    pub open spec fn len(self) -> nat {
        self.models.len()
    }

    /// The slots of all kinds are as many as there are entities, and every
    /// model is well formed.
    pub open spec fn wf(self) -> bool {
        &&& self.models.len() == self.names.len()
        &&& forall|i: int|
            0 <= i < self.models.len() ==> (#[trigger] self.models[i] matches Some(m) ==> m.wf())
    }

    /// The store with one more entity, which has the components given.
    pub open spec fn spawn(self, model: Option<ModelView>, name: Option<Seq<char>>) -> WorldView {
        WorldView { models: self.models.push(model), names: self.names.push(name) }
    }

    /// For each entity, whether it has a component of kind `kind`.
    pub open spec fn present(self, kind: ComponentKind) -> Seq<bool> {
        match kind {
            ComponentKind::Renderable => Seq::new(
                self.models.len(),
                |i: int| self.models[i] is Some,
            ),
            ComponentKind::Name => Seq::new(self.names.len(), |i: int| self.names[i] is Some),
        }
    }

    /// The entities that have a component of kind `kind`, in ascending order.
    pub open spec fn occupied(self, kind: ComponentKind) -> Seq<int> {
        set_positions(self.present(kind))
    }
}

/// The components handed to one call of `spawn`.
pub struct Spawn {
    pub model: Option<ModelView>,
    pub name: Option<Seq<char>>,
}

impl Spawn {
    /// Whether the call brings a component of kind `kind`.
    pub open spec fn brings(self, kind: ComponentKind) -> bool {
        match kind {
            ComponentKind::Renderable => self.model is Some,
            ComponentKind::Name => self.name is Some,
        }
    }
}

/// The store that the calls `calls`, made in this order on an empty store,
/// leave behind.
pub open spec fn spawned(calls: Seq<Spawn>) -> WorldView
    decreases calls.len(),
{
    if calls.len() == 0 {
        WorldView::empty()
    } else {
        spawned(calls.drop_last()).spawn(calls.last().model, calls.last().name)
    }
}

/// After any number of calls of `spawn`, the slots of each kind are as many
/// as the calls that were made.
pub proof fn lemma_spawn_keeps_lockstep(calls: Seq<Spawn>)
    ensures
        spawned(calls).models.len() == calls.len(),
        spawned(calls).names.len() == calls.len(),
        forall|kind: ComponentKind| #[trigger] spawned(calls).present(kind).len() == calls.len(),
    decreases calls.len(),
{
    if calls.len() > 0 {
        lemma_spawn_keeps_lockstep(calls.drop_last());
    }
}

/// The same, after each call: whatever the calls, the store left by the
/// first `n` of them has `n` slots of each kind.
pub proof fn lemma_spawn_counts(calls: Seq<Spawn>, n: int)
    requires
        0 <= n <= calls.len(),
    ensures
        spawned(calls.take(n)).models.len() == n,
        spawned(calls.take(n)).names.len() == n,
{
    lemma_spawn_keeps_lockstep(calls.take(n));
}

/// An entity has a component of a kind exactly if the call that made it
/// brought one.
pub proof fn lemma_spawn_presence(calls: Seq<Spawn>, kind: ComponentKind)
    ensures
        spawned(calls).present(kind) == Seq::new(calls.len(), |i: int| calls[i].brings(kind)),
    decreases calls.len(),
{
    lemma_spawn_keeps_lockstep(calls);
    if calls.len() > 0 {
        let init = calls.drop_last();
        lemma_spawn_presence(init, kind);
        lemma_spawn_keeps_lockstep(init);
        let now = spawned(calls).present(kind);
        let want = Seq::new(calls.len(), |i: int| calls[i].brings(kind));
        assert forall|i: int| 0 <= i < calls.len() implies now[i] == want[i] by {
            if i < init.len() {
                assert(spawned(init).present(kind)[i] == init[i].brings(kind));
            }
        }
        assert(now =~= want);
    } else {
        assert(spawned(calls).present(kind) =~= Seq::new(
            calls.len(),
            |i: int| calls[i].brings(kind),
        ));
    }
}

/// Walking the components of one kind after the calls `calls` yields
/// exactly one entity per call that brought a component of that kind, each
/// of them an entity that such a call made, in ascending order.
pub proof fn lemma_iterate_yields_spawned(calls: Seq<Spawn>, kind: ComponentKind)
    ensures
        spawned(calls).occupied(kind).len() == set_count(
            Seq::new(calls.len(), |i: int| calls[i].brings(kind)),
        ),
        forall|k: int|
            0 <= k < spawned(calls).occupied(kind).len() ==> 0 <= (
            #[trigger] spawned(calls).occupied(kind)[k]) < calls.len() && calls[spawned(
                calls,
            ).occupied(kind)[k]].brings(kind),
        forall|j: int, k: int|
            0 <= j < k < spawned(calls).occupied(kind).len() ==> (#[trigger] spawned(
                calls,
            ).occupied(kind)[j]) < (#[trigger] spawned(calls).occupied(kind)[k]),
        forall|i: int|
            0 <= i < calls.len() && (#[trigger] calls[i]).brings(kind) ==> spawned(calls).occupied(
                kind,
            ).contains(i),
{
    lemma_spawn_presence(calls, kind);
    let flags = spawned(calls).present(kind);
    let ids = spawned(calls).occupied(kind);
    lemma_set_positions_len(flags);
    assert forall|k: int| 0 <= k < ids.len() implies 0 <= (#[trigger] ids[k]) < calls.len()
        && calls[ids[k]].brings(kind) by {
        lemma_set_positions_sound(flags, k);
    }
    assert forall|j: int, k: int| 0 <= j < k < ids.len() implies (#[trigger] ids[j]) < (
    #[trigger] ids[k]) by {
        lemma_set_positions_ascending(flags, j, k);
    }
    assert forall|i: int| 0 <= i < calls.len() && (#[trigger] calls[i]).brings(kind) implies ids.contains(
        i,
    ) by {
        lemma_set_positions_complete(flags, i);
    }
}

impl View for World {
    type V = WorldView;

    closed spec fn view(&self) -> WorldView {
        WorldView {
            models: Seq::new(
                self.model_components@.len(),
                |i: int| model_view(self.model_components@[i]),
            ),
            names: Seq::new(
                self.name_components@.len(),
                |i: int| name_view(self.name_components@[i]),
            ),
        }
    }
}

impl Default for World {
    fn default() -> (world: Self)
        ensures
            world@ == WorldView::empty(),
            world.wf(),
    {
        let world = Self { model_components: Vec::new(), name_components: Vec::new() };
        assert(world@.models =~= Seq::empty());
        assert(world@.names =~= Seq::empty());
        world
    }
}

impl World {
    pub open spec fn wf(&self) -> bool {
        self@.wf()
    }

    /// A store holds no more entities than a machine can count.
    pub proof fn lemma_len_fits(&self)
        ensures
            self@.models.len() <= usize::MAX,
            self@.names.len() <= usize::MAX,
    {
        vstd::std_specs::vec::axiom_spec_len(&self.model_components);
        vstd::std_specs::vec::axiom_spec_len(&self.name_components);
    }

    /// Adds an entity with the components given and returns it. The new
    /// entity is the position after the last; no other entity changes.
    pub fn spawn(&mut self, model: Option<Model>, name: Option<Name>) -> (entity: usize)
        ensures
            final(self)@ == old(self)@.spawn(model_view(model), name_view(name)),
            entity == old(self)@.len(),
            old(self).wf() && (model matches Some(m) ==> m.wf()) ==> final(self).wf(),
    {
        let entity = self.model_components.len();
        let ghost before = self@;
        self.model_components.push(model);
        self.name_components.push(name);
        proof {
            assert(self@.models =~= before.models.push(model_view(model)));
            assert(self@.names =~= before.names.push(name_view(name)));
        }
        entity
    }

    /// The number of entities.
    pub fn len(&self) -> (len: usize)
        ensures
            len == self@.len(),
    {
        self.model_components.len()
    }

    /// Whether `entity` has a component of kind `kind`.
    pub fn has(&self, kind: ComponentKind, entity: usize) -> (has: bool)
        ensures
            has == (entity < self@.present(kind).len() && self@.present(kind)[entity as int]),
    {
        match kind {
            ComponentKind::Renderable => entity < self.model_components.len()
                && self.model_components[entity].is_some(),
            ComponentKind::Name => entity < self.name_components.len()
                && self.name_components[entity].is_some(),
        }
    }

    /// The entities that have a component of kind `kind`, in ascending
    /// order. Each call walks the store anew.
    pub fn iterate(&self, kind: ComponentKind) -> (entities: Vec<usize>)
        ensures
            entities@.map_values(|e: usize| e as int) == self@.occupied(kind),
    {
        let ghost flags = self@.present(kind);
        let count = match kind {
            ComponentKind::Renderable => self.model_components.len(),
            ComponentKind::Name => self.name_components.len(),
        };
        let mut entities: Vec<usize> = Vec::new();
        let mut i: usize = 0;
        proof {
            assert(flags.take(0) =~= Seq::<bool>::empty());
            assert(entities@.map_values(|e: usize| e as int) =~= set_positions(flags.take(0)));
        }
        while i < count
            invariant
                i <= count,
                count == flags.len(),
                flags == self@.present(kind),
                entities@.map_values(|e: usize| e as int) == set_positions(flags.take(i as int)),
            decreases count - i,
        {
            let ghost before = entities@;
            proof {
                assert(flags.take(i + 1).drop_last() =~= flags.take(i as int));
                assert(flags.take(i + 1).last() == flags[i as int]);
            }
            if self.has(kind, i) {
                entities.push(i);
                proof {
                    assert(entities@.map_values(|e: usize| e as int) =~= before.map_values(
                        |e: usize| e as int,
                    ).push(i as int));
                }
            }
            i = i + 1;
        }
        proof {
            assert(flags.take(i as int) =~= flags);
        }
        entities
    }

    /// The model of `entity`, where it has one.
    pub fn model(&self, entity: usize) -> (model: Option<&Model>)
        ensures
            model is Some <==> entity < self@.models.len() && self@.models[entity as int] is Some,
            model matches Some(m) ==> self@.models[entity as int] == Some(m@),
    {
        if entity >= self.model_components.len() {
            return None;
        }
        match &self.model_components[entity] {
            Some(m) => Some(m),
            None => None,
        }
    }

    /// The model of `entity`, where it has one, to be changed in place. The
    /// store that is left differs from the one before in that model only.
    pub fn model_mut(&mut self, entity: usize) -> (model: Option<&mut Model>)
        ensures
            model is Some <==> entity < old(self)@.models.len() && old(self)@.models[entity as int]
                is Some,
            final(self)@.names == old(self)@.names,
            match model {
                Some(m) => old(self)@.models[entity as int] == Some(m@) && final(self)@.models == old(
                    self,
                )@.models.update(entity as int, Some(final(m)@)),
                None => final(self)@.models == old(self)@.models,
            },
    {
        if entity >= self.model_components.len() {
            return None;
        }
        match &mut self.model_components[entity] {
            Some(m) => Some(m),
            None => None,
        }
    }

    /// The name of `entity`, where it has one.
    pub fn name(&self, entity: usize) -> (name: Option<&Name>)
        ensures
            name is Some <==> entity < self@.names.len() && self@.names[entity as int] is Some,
            name matches Some(n) ==> self@.names[entity as int] == Some(n.0@),
    {
        if entity >= self.name_components.len() {
            return None;
        }
        match &self.name_components[entity] {
            Some(n) => Some(n),
            None => None,
        }
    }
}

} // verus!

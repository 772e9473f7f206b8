use crate::ecs::commands::Commands;
use crate::ecs::schedule::{slot_of, Action, Cursor, Facts, Phase, Slot};
use crate::ecs::slots::{lemma_next_set_is, next_set};
use crate::ecs::world::{World, WorldView};
use crate::resources::gpu::ResourceState;
use vstd::prelude::*;

verus! {

/// The frame scheduler. It owns the entity store, the commands and the
/// registered systems, and decides what is done next; the work itself
/// (calling a system, talking to the GPU and to the window) is the driver's.
/// `S` is the type of a startup system, `U` that of an update system: the
/// scheduler keeps them in the order in which they were registered and hands
/// them out, and never calls one.
pub struct App<S, U> {
    commands: Commands,
    world: World,
    startup_systems: Vec<S>,
    update_systems: Vec<U>,
    cursor: Cursor,
}

pub struct AppView<S, U> {
    pub should_close: bool,
    pub world: WorldView,
    pub startup_systems: Seq<S>,
    pub update_systems: Seq<U>,
    pub cursor: Cursor,
}

impl<S, U> AppView<S, U> {
    /// What the schedule decides by.
    pub open spec fn facts(self) -> Facts {
        Facts {
            startup_systems: self.startup_systems.len(),
            update_systems: self.update_systems.len(),
            slots: Seq::new(self.world.models.len(), |i: int| slot_of(self.world.models[i])),
            should_close: self.should_close,
        }
    }

    pub open spec fn phase(self) -> Phase {
        self.cursor.phase()
    }
}

impl<S, U> View for App<S, U> {
    type V = AppView<S, U>;

    closed spec fn view(&self) -> AppView<S, U> {
        AppView {
            should_close: self.commands.should_close,
            world: self.world@,
            startup_systems: self.startup_systems@,
            update_systems: self.update_systems@,
            cursor: self.cursor,
        }
    }
}

/// The first entity at or after `from` whose renderable is in state
/// `state`, or the number of entities where there is none.
fn next_model(world: &World, from: usize, state: ResourceState) -> (entity: usize)
    ensures
        entity == next_set(
            Seq::new(
                world@.models.len(),
                |i: int| slot_of(world@.models[i]) == held(state),
            ),
            from as int,
        ),
        entity <= world@.models.len(),
{
    let ghost flags = Seq::new(
        world@.models.len(),
        |i: int| slot_of(world@.models[i]) == held(state),
    );
    let len = world.len();
    if from >= len {
        return len;
    }
    let mut i: usize = from;
    while i < len
        invariant
            from <= i <= len,
            len == world@.models.len(),
            flags == Seq::new(
                world@.models.len(),
                |i: int| slot_of(world@.models[i]) == held(state),
            ),
            forall|j: int| from <= j < i ==> !flags[j],
        decreases len - i,
    {
        let found = match world.model(i) {
            Some(m) => same_state(m.state(), state),
            None => false,
        };
        if found {
            proof {
                lemma_next_set_is(flags, from as int, i as int);
            }
            return i;
        }
        i = i + 1;
    }
    proof {
        lemma_next_set_is(flags, from as int, len as int);
    }
    len
}

/// The slot that a renderable in state `state` makes.
pub open spec fn held(state: ResourceState) -> Slot {
    match state {
        ResourceState::Unstaged => Slot::Unstaged,
        ResourceState::Staged => Slot::Staged,
    }
}

fn same_state(a: ResourceState, b: ResourceState) -> (same: bool)
    ensures
        same == (a == b),
{
    match (a, b) {
        (ResourceState::Unstaged, ResourceState::Unstaged) => true,
        (ResourceState::Staged, ResourceState::Staged) => true,
        _ => false,
    }
}

impl<S, U> App<S, U> {
    /// A scheduler that has nothing registered and has not begun: its store
    /// is empty and the loop has not been asked to end.
    pub fn new() -> (app: Self)
        ensures
            app@ == (AppView::<S, U> {
                should_close: false,
                world: WorldView::empty(),
                startup_systems: Seq::empty(),
                update_systems: Seq::empty(),
                cursor: Cursor::Startup { next: 0 },
            }),
            app@.world.wf(),
    {
        App {
            commands: Commands::default(),
            world: World::default(),
            startup_systems: Vec::new(),
            update_systems: Vec::new(),
            cursor: Cursor::Startup { next: 0 },
        }
    }

    /// Registers `f` as the last startup system.
    pub fn with_startup_system(self, f: S) -> (app: Self)
        ensures
            app@ == (AppView { startup_systems: self@.startup_systems.push(f), ..self@ }),
    {
        let mut app = self;
        app.startup_systems.push(f);
        app
    }

    /// Registers `f` as the last update system.
    pub fn with_update_system(self, f: U) -> (app: Self)
        ensures
            app@ == (AppView { update_systems: self@.update_systems.push(f), ..self@ }),
    {
        let mut app = self;
        app.update_systems.push(f);
        app
    }

    /// The phase the run is in.
    pub fn phase(&self) -> (phase: Phase)
        ensures
            phase == self@.phase(),
    {
        match self.cursor {
            Cursor::Startup { .. } => Phase::Initializing,
            Cursor::Staging { .. } => Phase::Staging,
            Cursor::Terminated => Phase::Terminated,
            _ => Phase::Running,
        }
    }

    /// Runs the schedule up to the next piece of work and hands it out. The
    /// driver carries the work out and calls again; after `Poll` it says in
    /// `events` how many events it collected, at any other time `events` is
    /// not looked at. Nothing but the place in the schedule changes.
    pub fn run(&mut self, events: usize) -> (action: Action)
        ensures
            old(self)@.facts().wf(),
            (final(self)@.cursor, action) == old(self)@.facts().step(
                old(self)@.cursor,
                events as int,
            ),
            final(self)@ == (AppView { cursor: final(self)@.cursor, ..old(self)@ }),
    {
        proof {
            self.world.lemma_len_fits();
            vstd::std_specs::vec::axiom_spec_len(&self.startup_systems);
            vstd::std_specs::vec::axiom_spec_len(&self.update_systems);
        }
        let (cursor, action) = match self.cursor {
            Cursor::Startup { next } => {
                if next < self.startup_systems.len() {
                    (Cursor::Startup { next: next + 1 }, Action::RunStartup { system: next })
                } else {
                    self.stage_from(0)
                }
            },
            Cursor::Staging { next } => self.stage_from(next),
            Cursor::Clear => (Cursor::Draw { next: 0 }, Action::Clear),
            Cursor::Draw { next } => self.draw_from(next),
            Cursor::Poll => (Cursor::Events, Action::Poll),
            Cursor::Events => self.dispatch_from(events, 0, 0),
            Cursor::Dispatch { events, event, system } => self.dispatch_from(
                events,
                event,
                system,
            ),
            Cursor::Terminated => (Cursor::Terminated, Action::Exit),
        };
        self.cursor = cursor;
        action
    }

    fn end_frame(&self) -> (r: (Cursor, Action))
        ensures
            r == self@.facts().end_frame(),
    {
        if self.commands.should_close {
            (Cursor::Terminated, Action::Exit)
        } else {
            (Cursor::Clear, Action::UpdateCamera)
        }
    }

    fn stage_from(&self, from: usize) -> (r: (Cursor, Action))
        ensures
            r == self@.facts().stage_from(from as int),
    {
        let entity = next_model(&self.world, from, ResourceState::Unstaged);
        proof {
            assert(self@.facts().holding(Slot::Unstaged) =~= Seq::new(
                self.world@.models.len(),
                |i: int| slot_of(self.world@.models[i]) == held(ResourceState::Unstaged),
            ));
        }
        if entity < self.world.len() {
            (Cursor::Staging { next: entity + 1 }, Action::Stage { entity })
        } else {
            (Cursor::Clear, Action::UpdateCamera)
        }
    }

    fn draw_from(&self, from: usize) -> (r: (Cursor, Action))
        ensures
            r == self@.facts().draw_from(from as int),
    {
        let entity = next_model(&self.world, from, ResourceState::Staged);
        proof {
            assert(self@.facts().holding(Slot::Staged) =~= Seq::new(
                self.world@.models.len(),
                |i: int| slot_of(self.world@.models[i]) == held(ResourceState::Staged),
            ));
        }
        if entity < self.world.len() {
            (Cursor::Draw { next: entity + 1 }, Action::Draw { entity })
        } else {
            (Cursor::Poll, Action::Present)
        }
    }

    fn dispatch_from(&self, events: usize, event: usize, system: usize) -> (r: (Cursor, Action))
        ensures
            r == self@.facts().dispatch_from(events as int, event as int, system as int),
    {
        if event < events && system < self.update_systems.len() {
            let after = if system + 1 < self.update_systems.len() {
                Cursor::Dispatch { events, event, system: system + 1 }
            } else {
                Cursor::Dispatch { events, event: event + 1, system: 0 }
            };
            (after, Action::Dispatch { event, system })
        } else {
            self.end_frame()
        }
    }

    /// The commands.
    pub fn commands(&self) -> (commands: &Commands)
        ensures
            commands.should_close == self@.should_close,
    {
        &self.commands
    }

    /// The entity store.
    pub fn world(&self) -> (world: &World)
        ensures
            world@ == self@.world,
    {
        &self.world
    }

    /// The commands, to be changed in place. Nothing else changes.
    pub fn commands_mut(&mut self) -> (commands: &mut Commands)
        ensures
            commands.should_close == old(self)@.should_close,
            final(self)@ == (AppView { should_close: final(commands).should_close, ..old(self)@ }),
    {
        &mut self.commands
    }

    /// The entity store, to be changed in place. Nothing else changes.
    pub fn world_mut(&mut self) -> (world: &mut World)
        ensures
            world@ == old(self)@.world,
            final(self)@ == (AppView { world: final(world)@, ..old(self)@ }),
    {
        &mut self.world
    }

    /// The number of startup systems registered.
    pub fn startup_count(&self) -> (count: usize)
        ensures
            count == self@.startup_systems.len(),
    {
        self.startup_systems.len()
    }

    /// The number of update systems registered.
    pub fn update_count(&self) -> (count: usize)
        ensures
            count == self@.update_systems.len(),
    {
        self.update_systems.len()
    }

    /// What a startup system is called with: the system registered at
    /// position `system`, the commands and the entity store. What the caller
    /// does to the two is what the scheduler finds afterwards; nothing else
    /// changes.
    pub fn startup_parts(&mut self, system: usize) -> (parts: Option<(&S, &mut Commands, &mut World)>)
        ensures
            parts is Some <==> system < old(self)@.startup_systems.len(),
            final(self)@.startup_systems == old(self)@.startup_systems,
            final(self)@.update_systems == old(self)@.update_systems,
            final(self)@.cursor == old(self)@.cursor,
            match parts {
                Some((f, commands, world)) => {
                    &&& *f == old(self)@.startup_systems[system as int]
                    &&& commands.should_close == old(self)@.should_close
                    &&& world@ == old(self)@.world
                    &&& final(self)@.should_close == final(commands).should_close
                    &&& final(self)@.world == final(world)@
                },
                None => final(self)@ == old(self)@,
            },
    {
        if system < self.startup_systems.len() {
            Some((&self.startup_systems[system], &mut self.commands, &mut self.world))
        } else {
            None
        }
    }

    /// What an update system is called with: the system registered at
    /// position `system`, the commands and the entity store. What the caller
    /// does to the two is what the scheduler finds afterwards; nothing else
    /// changes.
    pub fn update_parts(&mut self, system: usize) -> (parts: Option<(&U, &mut Commands, &mut World)>)
        ensures
            parts is Some <==> system < old(self)@.update_systems.len(),
            final(self)@.startup_systems == old(self)@.startup_systems,
            final(self)@.update_systems == old(self)@.update_systems,
            final(self)@.cursor == old(self)@.cursor,
            match parts {
                Some((f, commands, world)) => {
                    &&& *f == old(self)@.update_systems[system as int]
                    &&& commands.should_close == old(self)@.should_close
                    &&& world@ == old(self)@.world
                    &&& final(self)@.should_close == final(commands).should_close
                    &&& final(self)@.world == final(world)@
                },
                None => final(self)@ == old(self)@,
            },
    {
        if system < self.update_systems.len() {
            Some((&self.update_systems[system], &mut self.commands, &mut self.world))
        } else {
            None
        }
    }
}

} // verus!

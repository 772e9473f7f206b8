use crate::components::model::ModelView;
use crate::ecs::slots::{
    lemma_next_set, lemma_walk_is_set_positions, next_set, set_positions, set_positions_from,
};
use crate::resources::gpu::ResourceState;
use vstd::prelude::*;

verus! {

/// The four phases of a run, in the order in which they are gone through.
#[derive(Clone, Copy, Debug, PartialEq, Eq, Structural)]
pub enum Phase {
    /// The startup systems are run, each once.
    Initializing,
    /// The renderables are staged, each once.
    Staging,
    /// Frame after frame is drawn and the input of each is dispatched.
    Running,
    /// The loop has ended.
    Terminated,
}

/// One piece of work that the schedule hands to its driver. The driver
/// carries it out and asks for the next.
#[derive(Clone, Copy, Debug, PartialEq, Eq, Structural)]
pub enum Action {
    /// Call the startup system registered at position `system`.
    RunStartup { system: usize },
    /// Upload the renderable of `entity` and stage it.
    Stage { entity: usize },
    /// Recompute what the camera derives from its position.
    UpdateCamera,
    /// Clear the colour and depth buffers.
    Clear,
    /// Draw the renderable of `entity`.
    Draw { entity: usize },
    /// Show the frame.
    Present,
    /// Collect the input events that are pending.
    Poll,
    /// Call the update system registered at position `system` with the
    /// event at position `event` of those collected last.
    Dispatch { event: usize, system: usize },
    /// Leave the loop.
    Exit,
}

/// Where a run stands: what is due next.
#[derive(Clone, Copy, Debug, PartialEq, Eq, Structural)]
pub enum Cursor {
    /// The startup systems before `next` have been handed out.
    Startup { next: usize },
    /// The entities before `next` have been looked at for staging.
    Staging { next: usize },
    /// The camera update of a frame has been handed out; clearing is due.
    Clear,
    /// The entities before `next` have been looked at for drawing.
    Draw { next: usize },
    /// The frame has been presented; polling is due.
    Poll,
    /// Polling has been handed out; the number of events is awaited.
    Events,
    /// Of `events` events collected, those before `event` have gone to every
    /// update system, and the one at `event` to the systems before `system`.
    Dispatch { events: usize, event: usize, system: usize },
    /// The run has ended.
    Terminated,
}

impl Cursor {
    pub open spec fn phase(self) -> Phase {
        match self {
            Cursor::Startup { .. } => Phase::Initializing,
            Cursor::Staging { .. } => Phase::Staging,
            Cursor::Terminated => Phase::Terminated,
            _ => Phase::Running,
        }
    }
}

impl Phase {
    /// The place of the phase in the order of a run.
    pub open spec fn rank(self) -> int {
        match self {
            Phase::Initializing => 0,
            Phase::Staging => 1,
            Phase::Running => 2,
            Phase::Terminated => 3,
        }
    }
}

/// What the renderable slot of one entity holds.
#[derive(Clone, Copy, Debug, PartialEq, Eq, Structural)]
pub enum Slot {
    Empty,
    Unstaged,
    Staged,
}

pub open spec fn slot_of(model: Option<ModelView>) -> Slot {
    match model {
        None => Slot::Empty,
        Some(m) => match m.state {
            ResourceState::Unstaged => Slot::Unstaged,
            ResourceState::Staged => Slot::Staged,
        },
    }
}

/// All that the schedule decides by, besides where it stands.
pub struct Facts {
    /// How many startup systems are registered.
    pub startup_systems: nat,
    /// How many update systems are registered.
    pub update_systems: nat,
    /// The renderable slot of every entity.
    pub slots: Seq<Slot>,
    /// Whether the loop has been asked to end.
    pub should_close: bool,
}

impl Facts {
    /// The counts are such as a machine can hold.
    pub open spec fn wf(self) -> bool {
        &&& self.startup_systems <= usize::MAX
        &&& self.update_systems <= usize::MAX
        &&& self.slots.len() <= usize::MAX
    }

    /// For each entity, whether its renderable slot holds `slot`.
    pub open spec fn holding(self, slot: Slot) -> Seq<bool> {
        Seq::new(self.slots.len(), |i: int| self.slots[i] == slot)
    }

    /// What opens a frame.
    pub open spec fn begin_frame(self) -> (Cursor, Action) {
        (Cursor::Clear, Action::UpdateCamera)
    }

    /// What closes a frame: the loop ends if it has been asked to, else the
    /// next frame opens.
    pub open spec fn end_frame(self) -> (Cursor, Action) {
        if self.should_close {
            (Cursor::Terminated, Action::Exit)
        } else {
            self.begin_frame()
        }
    }

    /// Staging, with the entities before `from` done: the next renderable
    /// that is not staged is handed out; when there is none left, the first
    /// frame opens.
    pub open spec fn stage_from(self, from: int) -> (Cursor, Action) {
        let entity = next_set(self.holding(Slot::Unstaged), from);
        if 0 <= from && entity < self.slots.len() {
            (Cursor::Staging { next: (entity + 1) as usize }, Action::Stage { entity: entity as usize })
        } else {
            self.begin_frame()
        }
    }

    /// Drawing, with the entities before `from` done: the next renderable
    /// that is staged is handed out; when there is none left, the frame is
    /// presented.
    pub open spec fn draw_from(self, from: int) -> (Cursor, Action) {
        let entity = next_set(self.holding(Slot::Staged), from);
        if 0 <= from && entity < self.slots.len() {
            (Cursor::Draw { next: (entity + 1) as usize }, Action::Draw { entity: entity as usize })
        } else {
            (Cursor::Poll, Action::Present)
        }
    }

    /// Dispatching `events` events, with `event` the one in hand and
    /// `system` the next update system to get it: every event goes to every
    /// system, event after event, and each event to the systems in the order
    /// in which they were registered. After the last, the frame closes.
    pub open spec fn dispatch_from(self, events: int, event: int, system: int) -> (Cursor, Action) {
        if 0 <= event < events && 0 <= system < self.update_systems {
            let after = if system + 1 < self.update_systems {
                Cursor::Dispatch {
                    events: events as usize,
                    event: event as usize,
                    system: (system + 1) as usize,
                }
            } else {
                Cursor::Dispatch { events: events as usize, event: (event + 1) as usize, system: 0 }
            };
            (after, Action::Dispatch { event: event as usize, system: system as usize })
        } else {
            self.end_frame()
        }
    }

    /// One step of the schedule: from where it stands to the next piece of
    /// work, and to where it stands then. `events` is the number of events
    /// that the driver collected; it counts only in the step after `Poll`.
    pub open spec fn step(self, at: Cursor, events: int) -> (Cursor, Action) {
        match at {
            Cursor::Startup { next } => {
                if next < self.startup_systems {
                    (Cursor::Startup { next: (next + 1) as usize }, Action::RunStartup { system: next })
                } else {
                    self.stage_from(0)
                }
            },
            Cursor::Staging { next } => self.stage_from(next as int),
            Cursor::Clear => (Cursor::Draw { next: 0 }, Action::Clear),
            Cursor::Draw { next } => self.draw_from(next as int),
            Cursor::Poll => (Cursor::Events, Action::Poll),
            Cursor::Events => self.dispatch_from(events, 0, 0),
            Cursor::Dispatch { events, event, system } => self.dispatch_from(
                events as int,
                event as int,
                system as int,
            ),
            Cursor::Terminated => (Cursor::Terminated, Action::Exit),
        }
    }
}

} // verus!

verus! {

impl Facts {
    /// The dispatches that are still to be handed out when, of `events`
    /// events, `event` is in hand and `system` is the next system to get it.
    pub open spec fn dispatches(self, events: int, event: int, system: int) -> Seq<Action>
        decreases events - event, self.update_systems - system,
    {
        if 0 <= event < events && 0 <= system < self.update_systems {
            let rest = if system + 1 < self.update_systems {
                self.dispatches(events, event, system + 1)
            } else {
                self.dispatches(events, event + 1, 0)
            };
            seq![Action::Dispatch { event: event as usize, system: system as usize }] + rest
        } else {
            Seq::empty()
        }
    }

    /// `count` steps from `at`, with nothing changing in between: where the
    /// schedule stands then, and the work handed out on the way.
    pub open spec fn steps(self, at: Cursor, events: int, count: nat) -> (Cursor, Seq<Action>)
        decreases count,
    {
        if count == 0 {
            (at, Seq::empty())
        } else {
            let (next, action) = self.step(at, events);
            let (last, rest) = self.steps(next, events, (count - 1) as nat);
            (last, seq![action] + rest)
        }
    }
}

/// A run goes through its phases in their order and never back, and once it
/// has ended it stays ended.
pub proof fn lemma_phases_in_order(facts: Facts, at: Cursor, events: int)
    ensures
        at.phase().rank() <= facts.step(at, events).0.phase().rank(),
        at.phase() == Phase::Terminated ==> facts.step(at, events) == (
            Cursor::Terminated,
            Action::Exit,
        ),
        facts.step(at, events).1 == Action::Exit <==> facts.step(at, events).0.phase()
            == Phase::Terminated,
{
}

/// The startup systems are handed out one by one in the order in which they
/// were registered, and only while the run is initializing: each of them
/// once, and none after staging has begun.
pub proof fn lemma_startup_once_in_order(facts: Facts, at: Cursor, events: int)
    requires
        facts.wf(),
    ensures
        at matches Cursor::Startup { next } ==> (next < facts.startup_systems ==> facts.step(
            at,
            events,
        ) == (Cursor::Startup { next: (next + 1) as usize }, Action::RunStartup { system: next })),
        facts.step(at, events).1 matches Action::RunStartup { system } ==> at == (Cursor::Startup {
            next: system,
        }) && system < facts.startup_systems,
        facts.step(at, events).0 is Startup ==> at is Startup,
{
}

/// Staging comes after the last startup system and before the first frame.
/// What is handed out for staging is a renderable that is not staged, the
/// first such at or after the place where staging stands, and staging then
/// stands behind it: the renderables are taken in ascending order and none
/// twice.
pub proof fn lemma_stage_each_once(facts: Facts, at: Cursor, events: int)
    requires
        facts.wf(),
    ensures
        facts.step(at, events).1 matches Action::Stage { entity } ==> {
            let from = match at {
                Cursor::Staging { next } => next,
                _ => 0,
            };
            &&& at is Staging || (at matches Cursor::Startup { next } && next
                >= facts.startup_systems)
            &&& from <= entity < facts.slots.len()
            &&& facts.slots[entity as int] == Slot::Unstaged
            &&& forall|k: int| from <= k < entity ==> facts.slots[k] != Slot::Unstaged
            &&& facts.step(at, events).0 == (Cursor::Staging { next: (entity + 1) as usize })
        },
        at matches Cursor::Staging { next } ==> (!(facts.step(at, events).1 is Stage) ==> {
            &&& facts.step(at, events) == facts.begin_frame()
            &&& forall|k: int| next <= k < facts.slots.len() ==> facts.slots[k] != Slot::Unstaged
        }),
{
    let flags = facts.holding(Slot::Unstaged);
    match at {
        Cursor::Staging { next } => {
            if next <= flags.len() {
                lemma_next_set(flags, next as int);
            }
            assert forall|k: int| next <= k < next_set(flags, next as int) implies facts.slots[k]
                != Slot::Unstaged by {
                assert(!flags[k]);
            }
        },
        Cursor::Startup { next } => {
            lemma_next_set(flags, 0);
            assert forall|k: int| 0 <= k < next_set(flags, 0) implies facts.slots[k]
                != Slot::Unstaged by {
                assert(!flags[k]);
            }
        },
        _ => {},
    }
}

/// Nothing is drawn that is not staged. Within a frame the staged
/// renderables are drawn in ascending order of their entities, none is
/// passed over and none drawn twice, and the frame is presented when no
/// staged renderable is left.
pub proof fn lemma_draw_staged_in_order(facts: Facts, at: Cursor, events: int)
    requires
        facts.wf(),
    ensures
        facts.step(at, events).1 matches Action::Draw { entity } ==> {
            &&& at matches Cursor::Draw { next }
            &&& next <= entity < facts.slots.len()
            &&& facts.slots[entity as int] == Slot::Staged
            &&& forall|k: int| next <= k < entity ==> facts.slots[k] != Slot::Staged
            &&& facts.step(at, events).0 == (Cursor::Draw { next: (entity + 1) as usize })
        },
        at matches Cursor::Draw { next } ==> (!(facts.step(at, events).1 is Draw) ==> {
            &&& facts.step(at, events) == (Cursor::Poll, Action::Present)
            &&& forall|k: int| next <= k < facts.slots.len() ==> facts.slots[k] != Slot::Staged
        }),
{
    let flags = facts.holding(Slot::Staged);
    match at {
        Cursor::Draw { next } => {
            if next <= flags.len() {
                lemma_next_set(flags, next as int);
            }
            assert forall|k: int| next <= k < next_set(flags, next as int) implies facts.slots[k]
                != Slot::Staged by {
                assert(!flags[k]);
            }
        },
        _ => {},
    }
}

/// A frame is made of the same work in the same order every time: the camera
/// is updated, the buffers are cleared, the renderables are drawn, the frame
/// is presented and the input is polled.
pub proof fn lemma_frame_order(facts: Facts, events: int)
    ensures
        facts.begin_frame() == (Cursor::Clear, Action::UpdateCamera),
        facts.step(Cursor::Clear, events) == (Cursor::Draw { next: 0 }, Action::Clear),
        facts.step(Cursor::Poll, events) == (Cursor::Events, Action::Poll),
        facts.step(Cursor::Events, events) == facts.dispatch_from(events, 0, 0),
{
}

/// Once the input of a frame is being dispatched, the remaining dispatches
/// are handed out, every event to every update system, events in the order
/// in which they came and systems in the order in which they were
/// registered, and then the frame closes. No other work comes in between.
pub proof fn lemma_dispatch_run(facts: Facts, events: usize, event: usize, system: usize)
    requires
        facts.wf(),
        event <= events,
    ensures
        ({
            let at = Cursor::Dispatch { events, event, system };
            let left = facts.dispatches(events as int, event as int, system as int);
            let (last, handed) = facts.steps(at, events as int, left.len());
            &&& handed == left
            &&& facts.step(last, events as int) == facts.end_frame()
            &&& forall|i: int| 0 <= i < left.len() ==> (#[trigger] left[i]) is Dispatch
        }),
    decreases events - event, facts.update_systems - system,
{
    let at = Cursor::Dispatch { events, event, system };
    let left = facts.dispatches(events as int, event as int, system as int);
    if event < events && system < facts.update_systems {
        let (next, action) = facts.step(at, events as int);
        if system + 1 < facts.update_systems {
            lemma_dispatch_run(facts, events, event, (system + 1) as usize);
        } else {
            lemma_dispatch_run(facts, events, (event + 1) as usize, 0);
        }
        let rest = if system + 1 < facts.update_systems {
            facts.dispatches(events as int, event as int, system + 1)
        } else {
            facts.dispatches(events as int, event + 1, 0)
        };
        assert(left == seq![action] + rest);
        assert(left.len() == rest.len() + 1);
        let (last, handed) = facts.steps(next, events as int, rest.len());
        assert(facts.steps(at, events as int, left.len()) == (last, seq![action] + handed));
        assert forall|i: int| 0 <= i < left.len() implies (#[trigger] left[i]) is Dispatch by {
            if i > 0 {
                assert(left[i] == rest[i - 1]);
            }
        }
    } else {
        assert(left.len() == 0);
    }
}

/// A request to end the loop, made while the input of a frame is being
/// dispatched, ends the run in that very frame: with the request standing,
/// the events that are left still go to their systems, and the next piece of
/// work after them is to leave the loop. Nothing is drawn in between.
pub proof fn lemma_quit_ends_frame(facts: Facts, events: usize, event: usize, system: usize)
    requires
        facts.wf(),
        facts.should_close,
        event <= events,
    ensures
        ({
            let at = Cursor::Dispatch { events, event, system };
            let left = facts.dispatches(events as int, event as int, system as int);
            let (last, handed) = facts.steps(at, events as int, left.len() + 1);
            &&& last == Cursor::Terminated
            &&& handed == left.push(Action::Exit)
            &&& forall|i: int| 0 <= i < left.len() ==> (#[trigger] left[i]) is Dispatch
        }),
{
    let at = Cursor::Dispatch { events, event, system };
    let left = facts.dispatches(events as int, event as int, system as int);
    lemma_dispatch_run(facts, events, event, system);
    lemma_steps_add(facts, at, events as int, left.len(), 1);
    let (mid, handed) = facts.steps(at, events as int, left.len());
    assert(facts.steps(mid, events as int, 1) == (Cursor::Terminated, seq![Action::Exit])) by {
        let (next, action) = facts.step(mid, events as int);
        assert(facts.steps(next, events as int, 0) == (next, Seq::<Action>::empty()));
        assert(seq![action] + Seq::<Action>::empty() =~= seq![action]);
    }
    assert(left + seq![Action::Exit] =~= left.push(Action::Exit));
}

/// Steps add up: `a + b` steps are `a` steps and then `b` steps.
pub proof fn lemma_steps_add(facts: Facts, at: Cursor, events: int, a: nat, b: nat)
    ensures
        ({
            let (mid, first) = facts.steps(at, events, a);
            let (last, second) = facts.steps(mid, events, b);
            facts.steps(at, events, a + b) == (last, first + second)
        }),
    decreases a,
{
    if a == 0 {
        let (last, second) = facts.steps(at, events, b);
        assert(Seq::<Action>::empty() + second =~= second);
    } else {
        let (next, action) = facts.step(at, events);
        lemma_steps_add(facts, next, events, (a - 1) as nat, b);
        let (mid, first) = facts.steps(next, events, (a - 1) as nat);
        let (last, second) = facts.steps(mid, events, b);
        assert(seq![action] + (first + second) =~= (seq![action] + first) + second);
    }
}

} // verus!

verus! {

impl Facts {
    /// The entities whose renderable is staged, in ascending order.
    pub open spec fn staged(self) -> Seq<int> {
        set_positions(self.holding(Slot::Staged))
    }
}

/// The draws of the entities `entities`, in their order.
pub open spec fn draws(entities: Seq<int>) -> Seq<Action> {
    Seq::new(entities.len(), |i: int| Action::Draw { entity: entities[i] as usize })
}

/// From any place in the drawing of a frame, the staged renderables that
/// are left are drawn in ascending order, each once, and then the frame is
/// presented.
pub proof fn lemma_draw_run_from(facts: Facts, from: usize, events: int)
    requires
        facts.wf(),
    ensures
        ({
            let left = set_positions_from(facts.holding(Slot::Staged), from as int);
            facts.steps(Cursor::Draw { next: from }, events, left.len() + 1) == (
                Cursor::Poll,
                draws(left).push(Action::Present),
            )
        }),
    decreases facts.slots.len() - from,
{
    let flags = facts.holding(Slot::Staged);
    let at = Cursor::Draw { next: from };
    let left = set_positions_from(flags, from as int);
    let k = next_set(flags, from as int);
    let (next, action) = facts.step(at, events);
    if from <= flags.len() {
        lemma_next_set(flags, from as int);
    }
    if from <= k < flags.len() {
        let rest = set_positions_from(flags, k + 1);
        assert(left == seq![k] + rest);
        lemma_draw_run_from(facts, (k + 1) as usize, events);
        assert(next == Cursor::Draw { next: (k + 1) as usize });
        assert(seq![action] + draws(rest).push(Action::Present) =~= draws(left).push(
            Action::Present,
        ));
    } else {
        assert(left.len() == 0);
        assert(action == Action::Present);
        assert(facts.steps(next, events, 0) == (next, Seq::<Action>::empty()));
        assert(seq![action] + Seq::<Action>::empty() =~= draws(left).push(Action::Present));
    }
}

/// Within a frame, what is drawn is exactly the staged renderables, in
/// ascending order of their entities, each once; then the frame is
/// presented.
pub proof fn lemma_frame_draws_staged(facts: Facts, events: int)
    requires
        facts.wf(),
    ensures
        facts.steps(Cursor::Draw { next: 0 }, events, facts.staged().len() + 1) == (
            Cursor::Poll,
            draws(facts.staged()).push(Action::Present),
        ),
{
    lemma_walk_is_set_positions(facts.holding(Slot::Staged));
    lemma_draw_run_from(facts, 0, events);
}

} // verus!

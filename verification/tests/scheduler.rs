use motor::components::model::{Model, StageReport};
use motor::components::name::Name;
use motor::ecs::app::App;
use motor::ecs::commands::Commands;
use motor::ecs::input::{kbd, InputEvent, Key};
use motor::ecs::schedule::{Action, Phase};
use motor::ecs::world::{ComponentKind, World};
use motor::geometry::Vector3;
use motor::resources::gpu::DrawCommand;
use motor::resources::mesh::MeshHandles;
use motor::scene::{Scene, SceneMesh};

type Startup = fn(&mut Commands, &mut World);

type Update = fn(&mut Commands, InputEvent, &mut World);

const PROGRAM: u32 = 3;

fn triangle() -> Model {
    let scene = Scene {
        meshes: vec![SceneMesh {
            vertices: vec![Vector3::new(1, 0, 0), Vector3::new(0, 1, 0), Vector3::new(0, 0, 1)],
            texture_coords: None,
            faces: vec![vec![0, 1, 2]],
            material_index: 0,
        }],
        materials: vec![],
    };
    Model::new(String::from("models/triangle.obj"), &scene)
}

/// A driver that does no work of its own: it stages with made-up handles,
/// counts the draw calls, and feeds the events it is given, one batch per
/// poll.
struct Driver {
    app: App<Startup, Update>,
    polls: Vec<Vec<InputEvent>>,
    events: Vec<InputEvent>,
    polled: usize,
    next_handle: u32,
    actions: Vec<Action>,
    draw_calls: usize,
    draw_refusals: usize,
}

impl Driver {
    fn new(app: App<Startup, Update>, polls: Vec<Vec<InputEvent>>) -> Driver {
        Driver {
            app,
            polls,
            events: vec![],
            polled: 0,
            next_handle: 1,
            actions: vec![],
            draw_calls: 0,
            draw_refusals: 0,
        }
    }

    fn handle(&mut self) -> u32 {
        self.next_handle += 1;
        self.next_handle - 1
    }

    /// Asks for the next piece of work and carries it out.
    fn step(&mut self) -> Action {
        let action = self.app.run(self.polled);
        self.actions.push(action);
        match action {
            Action::RunStartup { system } => {
                let (f, commands, world) = self.app.startup_parts(system).expect("a system");
                f(commands, world);
            },
            Action::Stage { entity } => {
                let meshes = self.app.world().model(entity).expect("a model").meshes().len();
                let textures = self.app.world().model(entity).expect("a model").textures().len();
                let report = StageReport {
                    meshes: (0..meshes)
                        .map(|_| MeshHandles { vao: self.handle(), vbo: self.handle(), ebo: self.handle() })
                        .collect(),
                    textures: (0..textures).map(|_| Some(self.handle())).collect(),
                    fallback: Some(self.handle()),
                };
                let model = self.app.world_mut().model_mut(entity).expect("a model");
                assert_eq!(model.load(report), Ok(()));
            },
            Action::Draw { entity } => {
                let model = self.app.world().model(entity).expect("a model");
                match model.draw(PROGRAM) {
                    Ok(commands) => {
                        self.draw_calls += commands
                            .iter()
                            .filter(|c| {
                                matches!(
                                    c,
                                    DrawCommand::DrawElements { .. } | DrawCommand::DrawArrays { .. }
                                )
                            })
                            .count();
                    },
                    Err(_) => self.draw_refusals += 1,
                }
            },
            Action::Poll => {
                self.events = if self.polls.is_empty() { vec![] } else { self.polls.remove(0) };
                self.polled = self.events.len();
            },
            Action::Dispatch { event, system } => {
                let e = self.events[event];
                let (f, commands, world) = self.app.update_parts(system).expect("a system");
                f(commands, e, world);
            },
            Action::UpdateCamera | Action::Clear | Action::Present | Action::Exit => {},
        }
        action
    }

    /// Steps until `last` has been carried out.
    fn run_until(&mut self, last: Action) {
        for _ in 0..10_000 {
            if self.step() == last {
                return;
            }
        }
        panic!("the schedule never handed out {:?}", last);
    }
}

fn app() -> App<Startup, Update> {
    App::new()
}

fn spawn_two(_: &mut Commands, world: &mut World) {
    world.spawn(Some(triangle()), Some(Name::new("de_dust2")));
    world.spawn(None, Some(Name::new("Dylan")));
}

fn spawn_named(_: &mut Commands, world: &mut World) {
    world.spawn(None, Some(Name::new("first")));
}

fn spawn_three_models(_: &mut Commands, world: &mut World) {
    world.spawn(Some(triangle()), None);
    world.spawn(None, None);
    world.spawn(Some(triangle()), None);
    world.spawn(Some(triangle()), None);
}

fn close_at_startup(commands: &mut Commands, _: &mut World) {
    commands.should_close = true;
}

fn keyboard(commands: &mut Commands, event: InputEvent, _: &mut World) {
    kbd(commands, event);
}

fn spawn_on_w(_: &mut Commands, event: InputEvent, world: &mut World) {
    if event == (InputEvent::KeyDown { keycode: Some(Key::W) }) {
        world.spawn(Some(triangle()), None);
    }
}

fn w() -> InputEvent {
    InputEvent::KeyDown { keycode: Some(Key::W) }
}

#[test]
fn a_new_app_is_initializing() {
    let app: App<Startup, Update> = app();
    assert_eq!(app.phase(), Phase::Initializing);
    assert_eq!(app.world().len(), 0);
    assert!(!app.commands().should_close);
    assert_eq!(app.startup_count(), 0);
    assert_eq!(app.update_count(), 0);
}

#[test]
fn systems_are_kept_in_the_order_of_registration() {
    let mut app: App<u8, char> = App::new()
        .with_startup_system(7)
        .with_update_system('a')
        .with_startup_system(8)
        .with_update_system('b')
        .with_startup_system(9);
    assert_eq!(app.startup_count(), 3);
    assert_eq!(app.update_count(), 2);
    assert_eq!(app.startup_parts(0).map(|p| *p.0), Some(7));
    assert_eq!(app.startup_parts(1).map(|p| *p.0), Some(8));
    assert_eq!(app.startup_parts(2).map(|p| *p.0), Some(9));
    assert!(app.startup_parts(3).is_none());
    assert_eq!(app.update_parts(0).map(|p| *p.0), Some('a'));
    assert_eq!(app.update_parts(1).map(|p| *p.0), Some('b'));
    assert!(app.update_parts(2).is_none());
}

#[test]
fn startup_spawns_then_staging_then_one_mesh_is_drawn() {
    let app: App<Startup, Update> = app().with_startup_system(spawn_two);
    let mut driver = Driver::new(app, vec![]);

    // Initializing and staging, up to the work that opens the first frame.
    driver.run_until(Action::UpdateCamera);
    assert_eq!(
        driver.actions,
        vec![Action::RunStartup { system: 0 }, Action::Stage { entity: 0 }, Action::UpdateCamera]
    );
    assert_eq!(driver.app.phase(), Phase::Running);
    let world = driver.app.world();
    assert_eq!(world.len(), 2);
    assert!(world.has(ComponentKind::Renderable, 0));
    assert!(!world.has(ComponentKind::Renderable, 1));
    assert!(world.has(ComponentKind::Name, 0));
    assert!(world.has(ComponentKind::Name, 1));
    assert_eq!(world.iterate(ComponentKind::Renderable), vec![0]);
    assert_eq!(world.iterate(ComponentKind::Name), vec![0, 1]);
    assert!(world.model(0).expect("a model").is_staged());

    // The first frame.
    driver.run_until(Action::Poll);
    assert_eq!(
        driver.actions[2..],
        [
            Action::UpdateCamera,
            Action::Clear,
            Action::Draw { entity: 0 },
            Action::Present,
            Action::Poll
        ]
    );
    assert_eq!(driver.draw_calls, 1);
    assert_eq!(driver.draw_refusals, 0);
}

#[test]
fn quit_ends_the_run_in_the_frame_it_came_in() {
    let app: App<Startup, Update> =
        app().with_startup_system(spawn_two).with_update_system(keyboard);
    let mut driver = Driver::new(app, vec![vec![], vec![w(), InputEvent::Quit, w()]]);
    driver.run_until(Action::Exit);
    assert_eq!(driver.app.phase(), Phase::Terminated);
    assert_eq!(
        driver.actions,
        vec![
            Action::RunStartup { system: 0 },
            Action::Stage { entity: 0 },
            // First frame: no input.
            Action::UpdateCamera,
            Action::Clear,
            Action::Draw { entity: 0 },
            Action::Present,
            Action::Poll,
            // Second frame: the quit comes in, the events after it still go
            // out, and the run ends before anything else is drawn.
            Action::UpdateCamera,
            Action::Clear,
            Action::Draw { entity: 0 },
            Action::Present,
            Action::Poll,
            Action::Dispatch { event: 0, system: 0 },
            Action::Dispatch { event: 1, system: 0 },
            Action::Dispatch { event: 2, system: 0 },
            Action::Exit,
        ]
    );
    assert_eq!(driver.draw_calls, 2);
}

#[test]
fn a_terminated_run_stays_terminated() {
    let app: App<Startup, Update> = app().with_update_system(keyboard);
    let mut driver = Driver::new(app, vec![vec![InputEvent::Quit]]);
    driver.run_until(Action::Exit);
    for _ in 0..5 {
        assert_eq!(driver.step(), Action::Exit);
        assert_eq!(driver.app.phase(), Phase::Terminated);
    }
}

#[test]
fn a_request_to_end_made_at_startup_is_seen_at_the_end_of_the_first_frame() {
    let app: App<Startup, Update> =
        app().with_startup_system(close_at_startup).with_startup_system(spawn_two);
    let mut driver = Driver::new(app, vec![]);
    driver.run_until(Action::Exit);
    assert_eq!(
        driver.actions,
        vec![
            Action::RunStartup { system: 0 },
            Action::RunStartup { system: 1 },
            Action::Stage { entity: 0 },
            Action::UpdateCamera,
            Action::Clear,
            Action::Draw { entity: 0 },
            Action::Present,
            Action::Poll,
            Action::Exit,
        ]
    );
}

#[test]
fn startup_systems_run_once_each_in_order() {
    let app: App<Startup, Update> = app()
        .with_startup_system(spawn_named)
        .with_startup_system(spawn_two)
        .with_startup_system(spawn_named);
    let mut driver = Driver::new(app, vec![vec![], vec![], vec![]]);
    for _ in 0..40 {
        driver.step();
    }
    let startups: Vec<&Action> =
        driver.actions.iter().filter(|a| matches!(a, Action::RunStartup { .. })).collect();
    assert_eq!(
        startups,
        vec![
            &Action::RunStartup { system: 0 },
            &Action::RunStartup { system: 1 },
            &Action::RunStartup { system: 2 }
        ]
    );
    assert_eq!(driver.actions[..3], [
        Action::RunStartup { system: 0 },
        Action::RunStartup { system: 1 },
        Action::RunStartup { system: 2 }
    ]);
    let world = driver.app.world();
    assert_eq!(world.len(), 4);
    assert_eq!(world.name(0).map(|n| n.0), Some("first"));
    assert_eq!(world.name(1).map(|n| n.0), Some("de_dust2"));
    assert_eq!(world.name(2).map(|n| n.0), Some("Dylan"));
    assert_eq!(world.name(3).map(|n| n.0), Some("first"));
}

#[test]
fn every_renderable_is_staged_once_and_drawn_in_ascending_order() {
    let app: App<Startup, Update> = app().with_startup_system(spawn_three_models);
    let mut driver = Driver::new(app, vec![]);
    driver.run_until(Action::Poll);
    driver.run_until(Action::Poll);
    let frame = [
        Action::UpdateCamera,
        Action::Clear,
        Action::Draw { entity: 0 },
        Action::Draw { entity: 2 },
        Action::Draw { entity: 3 },
        Action::Present,
        Action::Poll,
    ];
    let mut expected = vec![
        Action::RunStartup { system: 0 },
        Action::Stage { entity: 0 },
        Action::Stage { entity: 2 },
        Action::Stage { entity: 3 },
    ];
    expected.extend_from_slice(&frame);
    expected.extend_from_slice(&frame);
    assert_eq!(driver.actions, expected);
    assert_eq!(driver.draw_calls, 6);
    assert_eq!(driver.draw_refusals, 0);
}

#[test]
fn every_event_goes_to_every_system_in_order() {
    let app: App<Startup, Update> =
        app().with_update_system(spawn_on_w).with_update_system(keyboard);
    let mut driver = Driver::new(app, vec![vec![w(), InputEvent::Other, w()]]);
    driver.run_until(Action::Poll);
    driver.run_until(Action::UpdateCamera);
    assert_eq!(
        driver.actions,
        vec![
            Action::UpdateCamera,
            Action::Clear,
            Action::Present,
            Action::Poll,
            Action::Dispatch { event: 0, system: 0 },
            Action::Dispatch { event: 0, system: 1 },
            Action::Dispatch { event: 1, system: 0 },
            Action::Dispatch { event: 1, system: 1 },
            Action::Dispatch { event: 2, system: 0 },
            Action::Dispatch { event: 2, system: 1 },
            Action::UpdateCamera,
        ]
    );
    assert_eq!(driver.app.world().len(), 2);
}

#[test]
fn events_without_systems_are_dropped() {
    let app: App<Startup, Update> = app();
    let mut driver = Driver::new(app, vec![vec![w(), w()]]);
    driver.run_until(Action::Poll);
    assert_eq!(driver.step(), Action::UpdateCamera);
}

#[test]
fn a_renderable_spawned_while_running_is_never_drawn_unstaged() {
    let app: App<Startup, Update> =
        app().with_startup_system(spawn_two).with_update_system(spawn_on_w);
    let mut driver = Driver::new(app, vec![vec![w()], vec![]]);
    driver.run_until(Action::Poll);
    driver.run_until(Action::Poll);
    driver.run_until(Action::Poll);
    assert_eq!(driver.app.world().iterate(ComponentKind::Renderable), vec![0, 2]);
    assert!(!driver.app.world().model(2).expect("a model").is_staged());
    let draws: Vec<&Action> =
        driver.actions.iter().filter(|a| matches!(a, Action::Draw { .. })).collect();
    assert_eq!(draws, vec![&Action::Draw { entity: 0 }; 3]);
    assert_eq!(driver.draw_refusals, 0);
    // Asked directly, the unstaged renderable turns the draw down.
    assert!(driver.app.world().model(2).expect("a model").draw(PROGRAM).is_err());
}

#[test]
fn a_renderable_staged_at_startup_is_not_staged_again() {
    fn spawn_staged(_: &mut Commands, world: &mut World) {
        let mut model = triangle();
        let report = StageReport {
            meshes: vec![MeshHandles { vao: 100, vbo: 101, ebo: 102 }],
            textures: vec![],
            fallback: Some(103),
        };
        assert_eq!(model.load(report), Ok(()));
        world.spawn(Some(model), None);
        world.spawn(Some(triangle()), None);
    }
    let app: App<Startup, Update> = app().with_startup_system(spawn_staged);
    let mut driver = Driver::new(app, vec![]);
    driver.run_until(Action::Poll);
    assert_eq!(
        driver.actions,
        vec![
            Action::RunStartup { system: 0 },
            Action::Stage { entity: 1 },
            Action::UpdateCamera,
            Action::Clear,
            Action::Draw { entity: 0 },
            Action::Draw { entity: 1 },
            Action::Present,
            Action::Poll,
        ]
    );
    let first = driver.app.world().model(0).expect("a model");
    assert_eq!(first.meshes()[0].handles(), Some(MeshHandles { vao: 100, vbo: 101, ebo: 102 }));
}

#[test]
fn phases_follow_each_other() {
    let app: App<Startup, Update> =
        app().with_startup_system(spawn_two).with_update_system(keyboard);
    let mut driver = Driver::new(app, vec![vec![InputEvent::Quit]]);
    let mut phases = vec![driver.app.phase()];
    for _ in 0..20 {
        driver.step();
        if *phases.last().expect("a phase") != driver.app.phase() {
            phases.push(driver.app.phase());
        }
    }
    assert_eq!(
        phases,
        vec![Phase::Initializing, Phase::Staging, Phase::Running, Phase::Terminated]
    );
}

#[test]
fn commands_can_be_set_from_outside() {
    let mut app: App<Startup, Update> = app();
    app.commands_mut().should_close = true;
    assert!(app.commands().should_close);
    let mut driver = Driver::new(app, vec![]);
    driver.run_until(Action::Exit);
    assert_eq!(
        driver.actions,
        vec![Action::UpdateCamera, Action::Clear, Action::Present, Action::Poll, Action::Exit]
    );
}

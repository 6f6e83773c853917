//! Ends-to-end exercise: a real Bevy update loop and a Tokio pool around the
//! scheduler and the mailbox, with background jobs reporting back through
//! main-thread callbacks.

use bevy_app::{App, Update};
use bevy_ecs::component::{
    Component, ComponentId, Mutable, RequiredComponentsRegistrator, StorageType,
};
use bevy_ecs::resource::{IsResource, Resource};
use bevy_ecs::schedule::IntoScheduleConfigs;
use bevy_ecs::world::World;
use bevy_wasm_tasks::{JobKey, Phase, Run, ScheduleOutcome, Scheduler, TaskChannels};
use std::sync::{Arc, Mutex};
use std::time::Duration;

type Callback = Box<dyn FnOnce(&mut World) + Send + 'static>;

/// What `derive(Resource)` would register: the marker that lets the world
/// find the resource's backing entity.
fn register_resource_marker<T: Component>(required_components: &mut RequiredComponentsRegistrator) {
    let resource_component_id = match required_components
        .components_registrator()
        .component_id::<T>()
    {
        Some(id) => id,
        None => required_components
            .components_registrator()
            .register_component::<T>(),
    };
    required_components
        .register_required::<IsResource>(move || IsResource::new(resource_component_id));
}

/// The host side a test needs: the pool jobs run on, the mailbox they report
/// through, and the deduplicating scheduler consulted once per update.
struct Bridge {
    runtime: Arc<tokio::runtime::Runtime>,
    mailbox: Arc<Mutex<TaskChannels<Callback>>>,
    scheduler: Scheduler<String>,
}

impl Component for Bridge {
    const STORAGE_TYPE: StorageType = StorageType::SparseSet;
    type Mutability = Mutable;

    fn register_required_components(
        _component_id: ComponentId,
        required_components: &mut RequiredComponentsRegistrator,
    ) {
        register_resource_marker::<Self>(required_components);
    }
}

impl Resource for Bridge {}

#[derive(Default)]
struct ProbeCounts {
    a: usize,
    b: usize,
}

impl Component for ProbeCounts {
    const STORAGE_TYPE: StorageType = StorageType::SparseSet;
    type Mutability = Mutable;

    fn register_required_components(
        _component_id: ComponentId,
        required_components: &mut RequiredComponentsRegistrator,
    ) {
        register_resource_marker::<Self>(required_components);
    }
}

impl Resource for ProbeCounts {}

fn key_a() -> JobKey {
    JobKey {
        site: 1,
        discriminator: 0,
    }
}

fn key_b() -> JobKey {
    JobKey {
        site: 2,
        discriminator: 0,
    }
}

/// Asks the scheduler whether this probe's job should run now; when it says
/// launch, spawns a background task that sleeps briefly and then submits a
/// main-thread callback which bumps the probe's counter and reports the run
/// complete.
fn drive_probe(world: &mut World, key: JobKey, bump_b: bool) {
    let (runtime, mailbox, outcome) = {
        let mut bridge = world.resource_mut::<Bridge>();
        let outcome = bridge.scheduler.async_system(key, Run::AsOftenAsPossible, 0);
        (bridge.runtime.clone(), bridge.mailbox.clone(), outcome)
    };
    match outcome {
        ScheduleOutcome::Launch => {}
        ScheduleOutcome::Skip => return,
        ScheduleOutcome::JobFailed(e) => panic!("probe job failed: {}", e),
    }
    runtime.spawn(async move {
        tokio::time::sleep(Duration::from_millis(25)).await;
        let callback: Callback = Box::new(move |world: &mut World| {
            {
                let mut counts = world.resource_mut::<ProbeCounts>();
                if bump_b {
                    counts.b += 1;
                } else {
                    counts.a += 1;
                }
            }
            world.resource_mut::<Bridge>().scheduler.complete(key, None);
        });
        // The main loop outlives the task here, so the mailbox stays open.
        mailbox
            .lock()
            .unwrap()
            .submit(Phase::Update, callback)
            .unwrap();
    });
}

fn probe_a(world: &mut World) {
    drive_probe(world, key_a(), false);
}

fn probe_b(world: &mut World) {
    drive_probe(world, key_b(), true);
}

/// The drain point: takes the callbacks queued so far as one batch and runs
/// them in submission order with exclusive world access.
fn run_mailbox(world: &mut World) {
    let mailbox = world.resource::<Bridge>().mailbox.clone();
    let batch = mailbox.lock().unwrap().drain(Phase::Update);
    for callback in batch {
        callback(world);
    }
}

fn test_app() -> App {
    let mut runtime = tokio::runtime::Builder::new_multi_thread();
    runtime.enable_all();
    let mut app = App::new();
    app.insert_resource(Bridge {
        runtime: Arc::new(runtime.build().unwrap()),
        mailbox: Arc::new(Mutex::new(TaskChannels::new())),
        scheduler: Scheduler::new(),
    });
    app.init_resource::<ProbeCounts>();
    app
}

fn pump_updates(app: &mut App, iterations: usize) {
    let runtime = app.world().resource::<Bridge>().runtime.clone();
    for _ in 0..iterations {
        app.update();
        runtime.block_on(async {
            tokio::time::sleep(Duration::from_millis(10)).await;
        });
    }
}

#[test]
fn scheduler_runs_as_often_as_possible_repeatedly() {
    let mut app = test_app();
    app.add_systems(Update, (probe_a, run_mailbox).chain());

    pump_updates(&mut app, 80);

    let counts = app.world().resource::<ProbeCounts>();
    assert!(
        counts.a >= 3,
        "expected scheduler probe to run multiple times, got a={}",
        counts.a
    );
}

#[test]
fn scheduler_runs_multiple_async_systems_in_chain() {
    let mut app = test_app();
    app.add_systems(Update, (probe_a, probe_b, run_mailbox).chain());

    pump_updates(&mut app, 100);

    let counts = app.world().resource::<ProbeCounts>();
    assert!(
        counts.a >= 3,
        "probe_a should have run multiple times, got a={}",
        counts.a
    );
    assert!(
        counts.b >= 3,
        "probe_b should have run multiple times, got b={}",
        counts.b
    );
}

#[test]
fn scheduler_runs_multiple_async_systems_without_chain() {
    let mut app = test_app();
    app.add_systems(Update, (probe_a, probe_b));
    app.add_systems(Update, run_mailbox);

    pump_updates(&mut app, 100);

    let counts = app.world().resource::<ProbeCounts>();
    assert!(
        counts.a >= 3,
        "probe_a should have run multiple times, got a={}",
        counts.a
    );
    assert!(
        counts.b >= 3,
        "probe_b should have run multiple times, got b={}",
        counts.b
    );
}

use system_registry::{
    Counter, RegistryError, RunSystemCommand, RunSystemsByLabelCommand, Storage, SystemFn,
    SystemLabel, SystemRegistry, World,
};

fn count(name: &str) -> SystemLabel {
    SystemLabel::named(name)
}

#[test]
fn run_system() {
    let mut world = World::new();
    world.init_counter();
    assert_eq!(world.counter(), Counter(0));
    world.run_system(SystemFn::CountUp).unwrap();
    assert_eq!(world.counter(), Counter(1));
}

#[test]
fn run_system_by_label() {
    let mut world = World::new();
    world.init_counter();
    assert_eq!(world.counter(), Counter(0));
    world.register_system(SystemFn::CountUp, count("count"));
    world.register_system(SystemFn::CountUp, count("count"));
    world.run_systems_by_label(count("count")).unwrap();
    assert_eq!(world.counter(), Counter(2));
}

#[test]
fn command_processing() {
    let mut world = World::new();
    world.init_counter();
    assert_eq!(world.storage.entities.len(), 0);
    world.run_system(SystemFn::SpawnEntity).unwrap();
    assert_eq!(world.storage.entities.len(), 1);
}

#[test]
fn non_send_resources() {
    let mut world = World::new();
    world.insert_non_send_counter(Counter(10));
    assert_eq!(world.non_send_counter(), Counter(10));
    world.run_system(SystemFn::NonSendCountDown).unwrap();
    assert_eq!(world.non_send_counter(), Counter(9));
    world.run_system(SystemFn::TriggerNonSendCountDown).unwrap();
    assert_eq!(world.non_send_counter(), Counter(8));
}

#[test]
fn change_detection() {
    let mut world = World::new();
    world.init_change_detector();
    world.init_counter();
    assert_eq!(world.counter(), Counter(0));
    // Resources are changed when they are first added.
    world.run_system(SystemFn::CountUpIffChanged).unwrap();
    assert_eq!(world.counter(), Counter(1));
    // Nothing changed
    world.run_system(SystemFn::CountUpIffChanged).unwrap();
    assert_eq!(world.counter(), Counter(1));
    // Making a change
    world.set_change_detector_changed();
    world.run_system(SystemFn::CountUpIffChanged).unwrap();
    assert_eq!(world.counter(), Counter(2));
}

#[test]
fn local_variables() {
    let mut world = World::new();
    world.insert_counter(Counter(1));
    assert_eq!(world.counter(), Counter(1));
    world.run_system(SystemFn::FibonacciCounting).unwrap();
    assert_eq!(world.counter(), Counter(1));
    world.run_system(SystemFn::FibonacciCounting).unwrap();
    assert_eq!(world.counter(), Counter(2));
    world.run_system(SystemFn::FibonacciCounting).unwrap();
    assert_eq!(world.counter(), Counter(3));
    world.run_system(SystemFn::FibonacciCounting).unwrap();
    assert_eq!(world.counter(), Counter(5));
}

#[test]
fn identity_cached_system_is_stored_once() {
    let mut world = World::new();
    world.run_system(SystemFn::CountUp).unwrap();
    world.run_system(SystemFn::CountUp).unwrap();
    world.run_system(SystemFn::CountUp).unwrap();
    assert_eq!(world.registry.len(), 1);
    assert!(world.registry.is_label_registered(&SystemLabel::Auto(SystemFn::CountUp)));
    assert_eq!(world.counter(), Counter(3));
}

#[test]
fn label_runs_in_registration_order() {
    let mut world = World::new();
    world.register_system(SystemFn::CountUp, count("seq"));
    world.register_system(SystemFn::FibonacciCounting, count("seq"));
    world.register_system(SystemFn::FibonacciCounting, count("seq"));
    // count_up: 1; first fibonacci sees 1: 1 + 0; second: 1 + 0.
    world.run_systems_by_label(count("seq")).unwrap();
    assert_eq!(world.counter(), Counter(1));
    // count_up: 2; first fibonacci: 2 + 1 = 3; second sees 3: 3 + 1 = 4.
    world.run_systems_by_label(count("seq")).unwrap();
    assert_eq!(world.counter(), Counter(4));
    assert_eq!(world.registry.len(), 3);
}

#[test]
fn later_system_sees_spawned_entity() {
    let mut world = World::new();
    world.register_system(SystemFn::SpawnEntity, count("spawn"));
    world.register_system(SystemFn::SpawnEntity, count("spawn"));
    world.run_systems_by_label(count("spawn")).unwrap();
    assert_eq!(world.storage.entities.len(), 2);
}

#[test]
fn system_under_two_labels() {
    let mut world = World::new();
    world.insert_non_send_counter(Counter(5));
    world.register_system_with_labels(SystemFn::CountUp, vec![count("a"), count("b")]);
    world.register_system(SystemFn::NonSendCountDown, count("b"));
    world.run_systems_by_label(count("a")).unwrap();
    assert_eq!(world.counter(), Counter(1));
    assert_eq!(world.non_send_counter(), Counter(5));
    world.run_systems_by_label(count("b")).unwrap();
    assert_eq!(world.counter(), Counter(2));
    assert_eq!(world.non_send_counter(), Counter(4));
    assert_eq!(world.registry.len(), 2);
}

#[test]
fn unregistered_label_fails() {
    let mut world = World::new();
    world.register_system(SystemFn::CountUp, count("count"));
    assert_eq!(
        world.run_systems_by_label(count("missing")),
        Err(RegistryError::UnregisteredLabel)
    );
    assert_eq!(world.counter(), Counter(0));
}

#[test]
fn named_and_automatic_labels_differ() {
    let mut world = World::new();
    world.register_system(SystemFn::CountUp, count("count_up"));
    assert!(!world.registry.is_label_registered(&SystemLabel::Auto(SystemFn::CountUp)));
    world.run_system(SystemFn::CountUp).unwrap();
    assert_eq!(world.registry.len(), 2);
    assert_eq!(world.counter(), Counter(1));
}

#[test]
fn identity_run_uses_first_registered() {
    let mut world = World::new();
    world.insert_counter(Counter(1));
    world.register_system(SystemFn::FibonacciCounting, SystemLabel::Auto(SystemFn::FibonacciCounting));
    world.register_system(SystemFn::FibonacciCounting, SystemLabel::Auto(SystemFn::FibonacciCounting));
    world.run_system(SystemFn::FibonacciCounting).unwrap();
    world.run_system(SystemFn::FibonacciCounting).unwrap();
    assert_eq!(world.counter(), Counter(2));
    // Both stored systems run by label: the first adds its remembered 1, the
    // second never ran before and adds 0.
    world.run_systems_by_label(SystemLabel::Auto(SystemFn::FibonacciCounting)).unwrap();
    assert_eq!(world.counter(), Counter(3));
    assert_eq!(world.registry.len(), 2);
}

#[test]
fn deferred_run_happens_after_outer_system() {
    let mut world = World::new();
    world.insert_non_send_counter(Counter(3));
    world.run_system(SystemFn::TriggerNonSendCountDown).unwrap();
    assert_eq!(world.non_send_counter(), Counter(2));
    // the queued system was registered by its own identity
    assert!(world.registry.is_label_registered(&SystemLabel::Auto(SystemFn::NonSendCountDown)));
    assert_eq!(world.registry.len(), 2);
}

#[test]
fn nested_deferred_run_is_refused() {
    let mut world = World::new();
    world.init_counter();
    assert_eq!(world.run_system(SystemFn::CountToTen), Err(RegistryError::NestedRun));
    assert_eq!(world.counter(), Counter(2));
}

#[test]
fn count_up_wraps() {
    let mut world = World::new();
    world.insert_counter(Counter(255));
    world.run_system(SystemFn::CountUp).unwrap();
    assert_eq!(world.counter(), Counter(0));
}

#[test]
fn commands_write_to_world() {
    let mut world = World::new();
    RunSystemCommand::new(SystemFn::CountUp).write(&mut world).unwrap();
    assert_eq!(world.counter(), Counter(1));
    world.register_system(SystemFn::CountUp, count("c"));
    RunSystemsByLabelCommand { label: count("c") }.write(&mut world).unwrap();
    assert_eq!(world.counter(), Counter(2));
    assert_eq!(
        RunSystemsByLabelCommand { label: count("none") }.write(&mut world),
        Err(RegistryError::UnregisteredLabel)
    );
}

#[test]
fn registry_used_directly() {
    let mut storage = Storage::new();
    let mut registry = SystemRegistry::new();
    registry.register_system(&mut storage, SystemFn::CountUp, count("x"));
    assert!(registry.is_label_registered(&count("x")));
    assert!(!registry.is_label_registered(&count("y")));
    registry.run_systems_by_label(&mut storage, count("x")).unwrap();
    registry.run_system(&mut storage, SystemFn::CountUp).unwrap();
    assert_eq!(storage.counter, Counter(2));
    assert_eq!(registry.len(), 2);
    assert_eq!(count("x").dyn_clone(), count("x"));
}

use inner_system::access::AccessMode;
use inner_system::inner::InnerSystem;
use inner_system::inner::InnerSystemBuilder;
use inner_system::inner::SystemMeta;
use inner_system::system::BoxedSystem;
use inner_system::world::Archetype;
use inner_system::world::DeferredWorld;
use inner_system::world::World;

#[test]
fn run_computes_output_from_declared_reads() {
    let mut world = World::new(1);
    world.write(1, 5);
    world.write(2, 9);
    let mut sys = BoxedSystem::new(1, vec![1, 2], vec![], vec![]);
    let out = sys.run(3, &mut world);
    assert_eq!(out, 3 ^ 5 ^ 9);
    // nothing was declared written, so nothing changed
    assert_eq!(world.read(1), Some(5));
    assert_eq!(world.read(2), Some(9));
}

#[test]
fn missing_components_read_as_zero() {
    let mut world = World::new(1);
    let mut sys = BoxedSystem::new(1, vec![6], vec![], vec![]);
    let out = sys.run(42, &mut world);
    assert_eq!(out, 42);
}

#[test]
fn run_writes_output_to_written_kinds() {
    let mut world = World::new(1);
    world.write(1, 10);
    let mut sys = BoxedSystem::new(1, vec![1], vec![2, 3], vec![]);
    let out = sys.run(1, &mut world);
    assert_eq!(out, 1 ^ 10);
    assert_eq!(world.read(2), Some(out));
    assert_eq!(world.read(3), Some(out));
}

#[test]
fn empty_system_returns_input_and_touches_nothing() {
    let mut world = World::new(1);
    world.write(9, 77);
    let mut sys = BoxedSystem::new(1, vec![], vec![], vec![]);
    let out = sys.run(13, &mut world);
    assert_eq!(out, 13);
    assert_eq!(world.read(9), Some(77));
    assert_eq!(sys.pending_len(), 0);
}

#[test]
fn handle_run_matches_standalone_run() {
    // the same system run standalone and through the embedding, against
    // identical worlds, gives the same output and the same mutations
    let mut w1 = World::new(4);
    let mut w2 = World::new(4);
    for w in [&mut w1, &mut w2] {
        w.write(1, 100);
        w.write(2, 200);
    }
    let mut standalone = BoxedSystem::new(4, vec![1, 2], vec![3], vec![]);
    let embedded = BoxedSystem::new(4, vec![1, 2], vec![3], vec![]);

    let out1 = standalone.run(55, &mut w1);

    let mut meta = SystemMeta::new();
    let state = InnerSystemBuilder::new(embedded)
        .build(&w2, &mut meta)
        .unwrap();
    let mut handle = InnerSystem::get_param(state, &meta, 0);
    let out2 = handle.run(55, &mut w2);

    assert_eq!(out1, out2);
    for k in 1..4 {
        assert_eq!(w1.read(k), w2.read(k));
    }
}

#[test]
fn deferred_writes_apply_only_at_the_apply_point() {
    let mut world = World::new(2);
    world.write(1, 8);
    let sys = BoxedSystem::new(2, vec![1], vec![], vec![5]);
    let mut meta = SystemMeta::new();
    let state = InnerSystemBuilder::new(sys).build(&world, &mut meta).unwrap();
    let mut handle = InnerSystem::get_param(state, &meta, 1);

    let out = handle.run(2, &mut world);
    assert_eq!(out, 2 ^ 8);
    // not observable before the apply hook runs
    assert_eq!(world.read(5), None);

    let mut state = handle.into_state();
    state.apply(&meta, &mut world);
    // observable exactly after the apply hook
    assert_eq!(world.read(5), Some(out));

    // and never twice: the queue was emptied, so a later apply point
    // does not overwrite newer values
    world.write(5, 999);
    state.apply(&meta, &mut world);
    assert_eq!(world.read(5), Some(999));
}

#[test]
fn deferred_writes_flush_in_recording_order() {
    let mut world = World::new(2);
    let mut sys = BoxedSystem::new(2, vec![], vec![], vec![7]);
    let first = sys.run(1, &mut world);
    let second = sys.run(2, &mut world);
    assert_ne!(first, second);
    assert_eq!(sys.pending_len(), 2);
    sys.apply_deferred(&mut world);
    // the later recording wins
    assert_eq!(world.read(7), Some(second));
    assert_eq!(sys.pending_len(), 0);
}

#[test]
fn queue_forwards_pending_commands() {
    let mut world = World::new(3);
    let sys = BoxedSystem::new(3, vec![], vec![], vec![4]);
    let mut meta = SystemMeta::new();
    let state = InnerSystemBuilder::new(sys).build(&world, &mut meta).unwrap();
    let mut handle = InnerSystem::get_param(state, &meta, 2);
    let out = handle.run(6, &mut world);
    let mut state = handle.into_state();

    let mut deferred = DeferredWorld::new();
    deferred.push_command(9, 1);
    state.queue(&meta, &mut deferred);
    assert_eq!(deferred.command_count(), 2);
    assert_eq!(deferred.command_at(0), (9, 1));
    assert_eq!(deferred.command_at(1), (4, out));
    // the pending queue moved out: queueing again adds nothing
    state.queue(&meta, &mut deferred);
    assert_eq!(deferred.command_count(), 2);
    // and the world itself was never touched
    assert_eq!(world.read(4), None);
}

#[test]
fn new_archetype_caches_touched_declarations() {
    let world = World::new(5);
    let sys = BoxedSystem::new(5, vec![1], vec![2], vec![]);
    let mut meta = SystemMeta::new();
    let mut state = InnerSystemBuilder::new(sys).build(&world, &mut meta).unwrap();
    assert_eq!(meta.archetype_component_access().get(1), None);

    let archetype = Archetype::new(vec![1, 3]);
    state.new_archetype(&archetype, &mut meta);
    // of the declared kinds, only those the archetype carries are cached
    assert_eq!(meta.archetype_component_access().get(1), Some(AccessMode::Read));
    assert_eq!(meta.archetype_component_access().get(2), None);
    assert_eq!(meta.archetype_component_access().get(3), None);

    let archetype2 = Archetype::new(vec![2]);
    state.new_archetype(&archetype2, &mut meta);
    assert_eq!(meta.archetype_component_access().get(1), Some(AccessMode::Read));
    assert_eq!(meta.archetype_component_access().get(2), Some(AccessMode::Write));
}

#[test]
fn handle_exposes_the_boxed_system() {
    let world = World::new(6);
    let sys = BoxedSystem::new(6, vec![1], vec![], vec![]);
    let mut meta = SystemMeta::new();
    let state = InnerSystemBuilder::new(sys).build(&world, &mut meta).unwrap();
    let handle = InnerSystem::get_param(state, &meta, 3);
    assert_eq!(handle.system().world_id(), 6);
    assert_eq!(handle.system().component_access_set().get(1), Some(AccessMode::Read));
}

#[test]
fn world_write_overwrites() {
    let mut world = World::new(1);
    assert_eq!(world.read(1), None);
    world.write(1, 2);
    assert_eq!(world.read(1), Some(2));
    world.write(1, 3);
    assert_eq!(world.read(1), Some(3));
    assert_eq!(world.id(), 1);
}

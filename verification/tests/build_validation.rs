use inner_system::access::AccessMode;
use inner_system::access::AccessSet;
use inner_system::inner::BuildError;
use inner_system::inner::InnerSystemBuilder;
use inner_system::inner::InnerSystemState;
use inner_system::inner::SystemMeta;
use inner_system::system::BoxedSystem;
use inner_system::world::World;

#[test]
fn disjoint_kinds_build_and_union() {
    let world = World::new(1);
    let mut meta = SystemMeta::new();
    meta.declare_component_access(1, AccessMode::Read);
    meta.declare_component_access(2, AccessMode::Write);
    let inner = BoxedSystem::new(1, vec![3], vec![4], vec![]);
    let builder = InnerSystemBuilder::new(inner);
    let state = builder.build(&world, &mut meta);
    assert!(state.is_ok());
    let acc = meta.component_access_set();
    assert_eq!(acc.get(1), Some(AccessMode::Read));
    assert_eq!(acc.get(2), Some(AccessMode::Write));
    assert_eq!(acc.get(3), Some(AccessMode::Read));
    assert_eq!(acc.get(4), Some(AccessMode::Write));
    assert_eq!(acc.get(5), None);
}

#[test]
fn read_read_sharing_is_accepted() {
    let world = World::new(1);
    let mut meta = SystemMeta::new();
    meta.declare_component_access(1, AccessMode::Read);
    let inner = BoxedSystem::new(1, vec![1], vec![], vec![]);
    let state = InnerSystemBuilder::new(inner).build(&world, &mut meta);
    assert!(state.is_ok());
    assert_eq!(meta.component_access_set().get(1), Some(AccessMode::Read));
}

#[test]
fn inner_write_on_shared_kind_is_rejected() {
    let world = World::new(1);
    let mut meta = SystemMeta::new();
    meta.declare_component_access(1, AccessMode::Read);
    let inner = BoxedSystem::new(1, vec![], vec![1], vec![]);
    let r = InnerSystemBuilder::new(inner).build(&world, &mut meta);
    assert_eq!(r.err(), Some(BuildError::ConflictingAccess));
    // nothing was published: the outer declaration is untouched
    assert_eq!(meta.component_access_set().get(1), Some(AccessMode::Read));
    assert_eq!(meta.component_access_set().get(2), None);
}

#[test]
fn outer_write_on_shared_kind_is_rejected() {
    let world = World::new(1);
    let mut meta = SystemMeta::new();
    meta.declare_component_access(1, AccessMode::Write);
    let inner = BoxedSystem::new(1, vec![1], vec![], vec![]);
    let r = InnerSystemBuilder::new(inner).build(&world, &mut meta);
    assert_eq!(r.err(), Some(BuildError::ConflictingAccess));
}

#[test]
fn deferred_write_on_shared_kind_is_rejected() {
    let world = World::new(1);
    let mut meta = SystemMeta::new();
    meta.declare_component_access(1, AccessMode::Read);
    let inner = BoxedSystem::new(1, vec![], vec![], vec![1]);
    let r = InnerSystemBuilder::new(inner).build(&world, &mut meta);
    assert_eq!(r.err(), Some(BuildError::ConflictingAccess));
}

#[test]
fn double_supply_fails_in_either_order() {
    let a = BoxedSystem::new(1, vec![1], vec![], vec![]);
    let b = BoxedSystem::new(1, vec![2], vec![], vec![]);
    let mut builder = InnerSystemBuilder::empty();
    assert!(builder.supply(a).is_ok());
    assert_eq!(builder.supply(b).err(), Some(BuildError::AlreadySupplied));

    let a2 = BoxedSystem::new(1, vec![1], vec![], vec![]);
    let b2 = BoxedSystem::new(1, vec![2], vec![], vec![]);
    let mut builder2 = InnerSystemBuilder::empty();
    assert!(builder2.supply(b2).is_ok());
    assert_eq!(builder2.supply(a2).err(), Some(BuildError::AlreadySupplied));
}

#[test]
fn double_supply_fails_even_for_compatible_systems() {
    // the two systems are identical, hence trivially compatible
    let a = BoxedSystem::new(1, vec![1], vec![], vec![]);
    let b = BoxedSystem::new(1, vec![1], vec![], vec![]);
    let mut builder = InnerSystemBuilder::new(a);
    assert_eq!(builder.supply(b).err(), Some(BuildError::AlreadySupplied));
}

#[test]
fn finishing_without_a_system_fails() {
    let world = World::new(1);
    let mut meta = SystemMeta::new();
    let r = InnerSystemBuilder::empty().build(&world, &mut meta);
    assert_eq!(r.err(), Some(BuildError::MissingSystem));
}

#[test]
fn world_mismatch_fails_despite_compatible_access() {
    let world = World::new(7);
    let mut meta = SystemMeta::new();
    let inner = BoxedSystem::new(8, vec![1], vec![], vec![]);
    let r = InnerSystemBuilder::new(inner).build(&world, &mut meta);
    assert_eq!(r.err(), Some(BuildError::WorldMismatch));
}

#[test]
fn world_mismatch_is_reported_before_conflicts() {
    let world = World::new(7);
    let mut meta = SystemMeta::new();
    meta.declare_component_access(1, AccessMode::Write);
    let inner = BoxedSystem::new(8, vec![], vec![1], vec![]);
    let r = InnerSystemBuilder::new(inner).build(&world, &mut meta);
    assert_eq!(r.err(), Some(BuildError::WorldMismatch));
}

#[test]
fn init_state_reports_missing_system() {
    let r = InnerSystemState::init_state();
    assert_eq!(r.err(), Some(BuildError::MissingSystem));
}

#[test]
fn supply_then_build_matches_wrap_existing() {
    let world = World::new(3);
    let mut meta1 = SystemMeta::new();
    let mut meta2 = SystemMeta::new();
    let s1 = BoxedSystem::new(3, vec![1], vec![2], vec![]);
    let s2 = BoxedSystem::new(3, vec![1], vec![2], vec![]);

    let wrapped = InnerSystemBuilder::new(s1).build(&world, &mut meta1);
    let mut supplied = InnerSystemBuilder::empty();
    assert!(supplied.supply(s2).is_ok());
    let supplied = supplied.build(&world, &mut meta2);

    assert!(wrapped.is_ok());
    assert!(supplied.is_ok());
    for k in 1..3 {
        assert_eq!(
            meta1.component_access_set().get(k),
            meta2.component_access_set().get(k)
        );
    }
}

#[test]
fn declared_access_is_derived_from_behaviour() {
    let sys = BoxedSystem::new(1, vec![1, 2], vec![2], vec![3]);
    let acc = sys.component_access_set();
    assert_eq!(acc.get(1), Some(AccessMode::Read));
    // read and written: the write wins
    assert_eq!(acc.get(2), Some(AccessMode::Write));
    // deferred writes are declared as writes
    assert_eq!(acc.get(3), Some(AccessMode::Write));
    assert_eq!(acc.get(4), None);
    assert_eq!(sys.world_id(), 1);
}

#[test]
fn access_set_declare_and_upgrade() {
    let mut acc = AccessSet::new();
    assert_eq!(acc.get(1), None);
    acc.declare(1, AccessMode::Read);
    assert_eq!(acc.get(1), Some(AccessMode::Read));
    acc.declare(1, AccessMode::Write);
    assert_eq!(acc.get(1), Some(AccessMode::Write));
    // a later read never weakens a declared write
    acc.declare(1, AccessMode::Read);
    assert_eq!(acc.get(1), Some(AccessMode::Write));
}

#[test]
fn access_set_compatibility() {
    let mut a = AccessSet::new();
    a.declare(1, AccessMode::Read);
    a.declare(2, AccessMode::Write);
    let mut b = AccessSet::new();
    b.declare(1, AccessMode::Read);
    b.declare(3, AccessMode::Write);
    assert!(a.is_compatible(&b));
    assert!(b.is_compatible(&a));
    let mut c = AccessSet::new();
    c.declare(2, AccessMode::Read);
    assert!(!a.is_compatible(&c));
    assert!(!c.is_compatible(&a));
    let empty = AccessSet::new();
    assert!(a.is_compatible(&empty));
}

#[test]
fn access_set_extend_unions() {
    let mut a = AccessSet::new();
    a.declare(1, AccessMode::Read);
    let mut b = AccessSet::new();
    b.declare(1, AccessMode::Write);
    b.declare(2, AccessMode::Read);
    a.extend(&b);
    assert_eq!(a.get(1), Some(AccessMode::Write));
    assert_eq!(a.get(2), Some(AccessMode::Read));
}

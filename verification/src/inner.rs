//! Embedding one system inside another: the builder that validates the
//! embedding at construction time, the persistent state that owns the
//! embedded system, and the per-invocation handle the outer system runs it
//! through.
//!
//! The scheduler parallelizes systems by comparing declared access sets, but
//! an embedded system's accesses are hidden behind the outer system's logic.
//! The builder therefore checks, once and before any state is published, that
//! the embedded system belongs to the destination world and that its declared
//! accesses cannot conflict with the outer system's, and then unions them
//! into the outer declaration.  Every failure is a construction-time error:
//! no state exists that did not pass the check.

use vstd::prelude::*;

use crate::access::AccessMode;
use crate::access::AccessSet;
use crate::access::compatible;
use crate::access::merge_one;
use crate::access::union_acc;
use crate::system::BoxedSystem;
use crate::system::apply_all;
use crate::system::defer_delta;
use crate::system::run_out;
use crate::system::run_world;
use crate::system::same_decl;
use crate::world::Archetype;
use crate::world::DeferredWorld;
use crate::world::World;

verus! {

/// Why a construction attempt was rejected.  All of these are programmer
/// errors in wiring systems together, surfaced at setup time.
#[derive(Clone, Copy, PartialEq, Eq, Structural, Debug)]
pub enum BuildError {
    /// The builder was handed a second system.
    AlreadySupplied,
    /// The builder was finished without ever receiving a system.
    MissingSystem,
    /// The embedded system was built for a different world.
    WorldMismatch,
    /// The embedded system's declared access conflicts with the outer
    /// system's.
    ConflictingAccess,
}

/// The outer system's accumulated metadata: the declared access set the
/// scheduler's conflict analysis reads, and the archetype-level access
/// tracked alongside it.
pub struct SystemMeta {
    component_access_set: AccessSet,
    archetype_component_access: AccessSet,
}

impl SystemMeta {
    /// The declared component access accumulated so far.
    pub closed spec fn comp_access(&self) -> Map<u64, AccessMode> {
        self.component_access_set@
    }

    /// The archetype-level access accumulated so far.
    pub closed spec fn arch_access(&self) -> Map<u64, AccessMode> {
        self.archetype_component_access@
    }

    pub closed spec fn wf(&self) -> bool {
        self.component_access_set.wf() && self.archetype_component_access.wf()
    }

    pub fn new() -> (r: Self)
        ensures
            r.comp_access() == Map::<u64, AccessMode>::empty(),
            r.arch_access() == Map::<u64, AccessMode>::empty(),
            r.wf(),
    {
        SystemMeta {
            component_access_set: AccessSet::new(),
            archetype_component_access: AccessSet::new(),
        }
    }

    /// Declares `mode` access to kind `k` for the outer system itself.
    pub fn declare_component_access(&mut self, k: u64, mode: AccessMode)
        requires
            old(self).wf(),
        ensures
            final(self).wf(),
            final(self).comp_access() == merge_one(old(self).comp_access(), k, mode),
            final(self).arch_access() == old(self).arch_access(),
    {
        self.component_access_set.declare(k, mode);
    }

    /// The accumulated component access, for the scheduler's conflict check.
    pub fn component_access_set(&self) -> (r: &AccessSet)
        requires
            self.wf(),
        ensures
            r@ == self.comp_access(),
            r.wf(),
    {
        &self.component_access_set
    }

    /// The accumulated archetype-level access.
    pub fn archetype_component_access(&self) -> (r: &AccessSet)
        requires
            self.wf(),
        ensures
            r@ == self.arch_access(),
            r.wf(),
    {
        &self.archetype_component_access
    }
}

/// Persistent storage for the embedded system: owns exactly one boxed system
/// for the outer system's whole lifetime.  Only a builder that passed every
/// validation step produces a value of this type.
pub struct InnerSystemState {
    system: BoxedSystem,
}

/// The validation verdict the builder reaches: the first failed check wins,
/// in the order missing system, world identity, access compatibility.
pub open spec fn validate(sys: Option<BoxedSystem>, world_id: u64, outer: Map<u64, AccessMode>) -> Option<BuildError> {
    match sys {
        Option::None => Option::Some(BuildError::MissingSystem),
        Option::Some(s) => if s.wid() != world_id {
            Option::Some(BuildError::WorldMismatch)
        } else if !compatible(s.access_of(), outer) {
            Option::Some(BuildError::ConflictingAccess)
        } else {
            Option::None
        },
    }
}

impl InnerSystemState {
    /// The embedded system.
    pub closed spec fn sys(&self) -> BoxedSystem {
        self.system
    }

    pub closed spec fn wf(&self) -> bool {
        self.system.wf()
    }

    /// The parameter-lifecycle entry that would default-construct this state.
    /// There is no valid default: the state must come from a builder, so this
    /// always reports that no system was supplied.
    pub fn init_state() -> (r: Result<InnerSystemState, BuildError>)
        ensures
            r == Result::<InnerSystemState, BuildError>::Err(BuildError::MissingSystem),
    {
        Err(BuildError::MissingSystem)
    }

    /// Flushes the deferred writes the embedded system recorded during the
    /// tick into the world, exactly once, in recording order.
    pub fn apply(&mut self, _meta: &SystemMeta, world: &mut World)
        requires
            old(self).wf(),
            old(world).wf(),
            old(world).wid() == old(self).sys().wid(),
        ensures
            final(self).wf(),
            final(world).wf(),
            final(world).wid() == old(world).wid(),
            final(world)@ == apply_all(old(world)@, old(self).sys().pending_of()),
            final(self).sys().pending_of() == Seq::<(u64, u64)>::empty(),
            same_decl(final(self).sys(), old(self).sys()),
    {
        self.system.apply_deferred(world);
    }

    /// Forwards the recorded deferred writes into the deferred world's
    /// command queue instead of applying them.
    pub fn queue(&mut self, _meta: &SystemMeta, world: &mut DeferredWorld)
        requires
            old(self).wf(),
        ensures
            final(self).wf(),
            final(world)@ == old(world)@ + old(self).sys().pending_of(),
            final(self).sys().pending_of() == Seq::<(u64, u64)>::empty(),
            same_decl(final(self).sys(), old(self).sys()),
    {
        self.system.queue_deferred(world);
    }

    /// Propagates a new-archetype notification: the embedded system refreshes
    /// its cached archetype access, and the outer metadata unions that cache
    /// in, so the outer aggregate keeps reflecting the embedding.
    pub fn new_archetype(&mut self, archetype: &Archetype, meta: &mut SystemMeta)
        requires
            old(self).wf(),
            old(meta).wf(),
        ensures
            final(self).wf(),
            final(meta).wf(),
            final(self).sys().arch_access_of() == union_acc(
                old(self).sys().arch_access_of(),
                old(self).sys().access_of().restrict(
                    crate::access::kinds_set(archetype.kinds_of()),
                ),
            ),
            final(meta).arch_access() == union_acc(
                old(meta).arch_access(),
                final(self).sys().arch_access_of(),
            ),
            final(meta).comp_access() == old(meta).comp_access(),
            same_decl_but_arch(final(self).sys(), old(self).sys()),
    {
        self.system.new_archetype(archetype);
        self.meta_extend_arch(meta);
    }

    /// Unions the embedded system's cached archetype access into the outer
    /// metadata.
    fn meta_extend_arch(&self, meta: &mut SystemMeta)
        requires
            self.wf(),
            old(meta).wf(),
        ensures
            final(meta).wf(),
            final(meta).arch_access() == union_acc(
                old(meta).arch_access(),
                self.sys().arch_access_of(),
            ),
            final(meta).comp_access() == old(meta).comp_access(),
    {
        let cached = self.system.archetype_component_access();
        meta.archetype_component_access.extend(cached);
    }
}

/// Everything of a system but its cached archetype access.
pub open spec fn same_decl_but_arch(a: BoxedSystem, b: BoxedSystem) -> bool {
    a.wid() == b.wid() && a.access_of() == b.access_of() && a.reads_of() == b.reads_of()
        && a.writes_of() == b.writes_of() && a.defers_of() == b.defers_of() && a.pending_of()
        == b.pending_of()
}

/// The short-lived view bound to the state for one invocation of the outer
/// system: the outer system's logic calls `run` on it to drive the embedded
/// system.
pub struct InnerSystem {
    state: InnerSystemState,
    change_tick: u64,
}

impl InnerSystem {
    pub closed spec fn sys(&self) -> BoxedSystem {
        self.state.sys()
    }

    pub closed spec fn tick(&self) -> u64 {
        self.change_tick
    }

    pub closed spec fn wf(&self) -> bool {
        self.state.wf()
    }

    /// Binds a fresh handle to the state for the current tick.  The state
    /// moves into the handle for the invocation and is taken back with
    /// `into_state` when the invocation ends.
    pub fn get_param(state: InnerSystemState, _meta: &SystemMeta, change_tick: u64) -> (r:
        InnerSystem)
        ensures
            r.sys() == state.sys(),
            r.tick() == change_tick,
            r.wf() == state.wf(),
    {
        InnerSystem { state, change_tick }
    }

    /// Runs the embedded system once against `world`, returning its output.
    /// The result and the world mutations are exactly those of running the
    /// same system standalone against the same world state.
    pub fn run(&mut self, input: u64, world: &mut World) -> (out: u64)
        requires
            old(self).wf(),
            old(world).wf(),
            old(world).wid() == old(self).sys().wid(),
        ensures
            final(self).wf(),
            final(world).wf(),
            final(world).wid() == old(world).wid(),
            out == run_out(old(self).sys(), input, old(world)@),
            final(world)@ == run_world(old(self).sys(), input, old(world)@),
            final(self).sys().pending_of() == old(self).sys().pending_of() + defer_delta(
                old(self).sys().defers_of(),
                out,
            ),
            same_decl(final(self).sys(), old(self).sys()),
            final(self).tick() == old(self).tick(),
    {
        self.state.system.run(input, world)
    }

    /// Gives the embedded system itself to callers that need direct access.
    pub fn system(&self) -> (r: &BoxedSystem)
        ensures
            r == &self.sys(),
    {
        &self.state.system
    }

    /// Ends the invocation, handing the state back for the next tick.
    pub fn into_state(self) -> (r: InnerSystemState)
        ensures
            r.sys() == self.sys(),
            r.wf() == self.wf(),
    {
        self.state
    }
}

/// Collects the embedded system and validates the embedding when consumed.
/// Both construction strategies go through the same validation: wrap an
/// existing system with `new`, or start `empty` and `supply` one later.
pub struct InnerSystemBuilder {
    system: Option<BoxedSystem>,
}

impl InnerSystemBuilder {
    /// The system collected so far.
    pub closed spec fn pending_sys(&self) -> Option<BoxedSystem> {
        self.system
    }

    pub closed spec fn wf(&self) -> bool {
        match self.system {
            Option::Some(s) => s.wf(),
            Option::None => true,
        }
    }

    /// Wraps an already-constructed system; validation happens when the
    /// builder is consumed.
    pub fn new(system: BoxedSystem) -> (r: Self)
        ensures
            r.pending_sys() == Option::Some(system),
            r.wf() == system.wf(),
    {
        InnerSystemBuilder { system: Some(system) }
    }

    /// Starts with no system; one must be supplied before the builder is
    /// consumed.
    pub fn empty() -> (r: Self)
        ensures
            r.pending_sys() == Option::<BoxedSystem>::None,
            r.wf(),
    {
        InnerSystemBuilder { system: None }
    }

    /// Supplies the system to embed.  Supplying a second one is a
    /// construction-time error, whatever the two systems declare.
    pub fn supply(&mut self, system: BoxedSystem) -> (r: Result<(), BuildError>)
        ensures
            match old(self).pending_sys() {
                Option::None => r == Result::<(), BuildError>::Ok(()) && final(self).pending_sys()
                    == Option::Some(system) && final(self).wf() == system.wf(),
                Option::Some(_) => r == Result::<(), BuildError>::Err(BuildError::AlreadySupplied)
                    && *final(self) == *old(self),
            },
    {
        if self.system.is_some() {
            return Err(BuildError::AlreadySupplied);
        }
        self.system = Some(system);
        Ok(())
    }

    /// Consumes the builder: checks that exactly one system was supplied,
    /// that it was built for `world`, and that its declared access cannot
    /// conflict with the outer system's accumulated access; on success the
    /// embedded accesses are unioned into `meta` and the persistent state is
    /// produced.  On failure nothing is published and `meta` is untouched.
    pub fn build(self, world: &World, meta: &mut SystemMeta) -> (r: Result<
        InnerSystemState,
        BuildError,
    >)
        requires
            self.wf(),
            old(meta).wf(),
        ensures
            final(meta).wf(),
            match validate(self.pending_sys(), world.wid(), old(meta).comp_access()) {
                Option::Some(e) => r == Result::<InnerSystemState, BuildError>::Err(e)
                    && *final(meta) == *old(meta),
                Option::None => {
                    &&& r matches Result::Ok(st)
                    &&& st.sys() == self.pending_sys().unwrap()
                    &&& st.wf()
                    &&& final(meta).comp_access() == union_acc(
                        old(meta).comp_access(),
                        self.pending_sys().unwrap().access_of(),
                    )
                    &&& final(meta).arch_access() == union_acc(
                        old(meta).arch_access(),
                        self.pending_sys().unwrap().arch_access_of(),
                    )
                },
            },
    {
        let system = match self.system {
            Some(s) => s,
            None => {
                return Err(BuildError::MissingSystem);
            },
        };
        if system.world_id() != world.id() {
            return Err(BuildError::WorldMismatch);
        }
        let component_access = system.component_access_set();
        if !component_access.is_compatible(meta.component_access_set()) {
            return Err(BuildError::ConflictingAccess);
        }
        meta.component_access_set.extend(system.component_access_set());
        meta.archetype_component_access.extend(system.archetype_component_access());
        Ok(InnerSystemState { system })
    }
}

} // verus!

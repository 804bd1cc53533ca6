//! The shared store a system runs against: one value per component kind,
//! addressed by kind, together with the deferred (command-queue) form of the
//! store and the archetype notifications the storage layer emits.

use vstd::prelude::*;

use crate::kv::KvStore;
use crate::kv::map_get;

verus! {

/// The single shared mutable store.  Each world carries an identity; a system
/// built for one world must never run against another.
pub struct World {
    id: u64,
    components: KvStore<u64>,
}

impl View for World {
    type V = Map<u64, u64>;

    closed spec fn view(&self) -> Map<u64, u64> {
        self.components@
    }
}

impl World {
    /// The world's identity.
    pub closed spec fn wid(&self) -> u64 {
        self.id
    }

    pub closed spec fn wf(&self) -> bool {
        self.components.wf()
    }

    pub fn new(id: u64) -> (r: Self)
        ensures
            r.wid() == id,
            r@ == Map::<u64, u64>::empty(),
            r.wf(),
    {
        World { id, components: KvStore::new() }
    }

    pub fn id(&self) -> (r: u64)
        ensures
            r == self.wid(),
    {
        self.id
    }

    /// The value stored for kind `k`, if any.
    pub fn read(&self, k: u64) -> (r: Option<u64>)
        requires
            self.wf(),
        ensures
            r == map_get(self@, k),
    {
        self.components.get(k)
    }

    /// Stores `v` for kind `k`.
    pub fn write(&mut self, k: u64, v: u64)
        requires
            old(self).wf(),
        ensures
            final(self).wf(),
            final(self).wid() == old(self).wid(),
            final(self)@ == old(self)@.insert(k, v),
    {
        self.components.set(k, v);
    }
}

/// The world in its deferred form: mutations can only be queued as commands,
/// to be played back against the real store at a flush point the scheduler
/// chooses.
pub struct DeferredWorld {
    commands: Vec<(u64, u64)>,
}

impl View for DeferredWorld {
    type V = Seq<(u64, u64)>;

    closed spec fn view(&self) -> Seq<(u64, u64)> {
        self.commands@
    }
}

impl DeferredWorld {
    pub fn new() -> (r: Self)
        ensures
            r@ == Seq::<(u64, u64)>::empty(),
    {
        DeferredWorld { commands: Vec::new() }
    }

    /// Queues one write command.
    pub fn push_command(&mut self, k: u64, v: u64)
        ensures
            final(self)@ == old(self)@.push((k, v)),
    {
        self.commands.push((k, v));
    }

    /// Appends a recorded batch of write commands, emptying the batch.
    pub fn append_commands(&mut self, batch: &mut Vec<(u64, u64)>)
        ensures
            final(self)@ == old(self)@ + old(batch)@,
            final(batch)@ == Seq::<(u64, u64)>::empty(),
    {
        self.commands.append(batch);
    }

    pub fn command_count(&self) -> (r: usize)
        ensures
            r == self@.len(),
    {
        self.commands.len()
    }

    pub fn command_at(&self, i: usize) -> (r: (u64, u64))
        requires
            i < self@.len(),
        ensures
            r == self@[i as int],
    {
        self.commands[i]
    }
}

/// A grouping of entities that share a set of component kinds.  Only the
/// kinds matter here: a system reacts to a new archetype by caching which of
/// its declared accesses the archetype can touch at all.
pub struct Archetype {
    kinds: Vec<u64>,
}

impl Archetype {
    /// The kinds the archetype's entities carry.
    pub closed spec fn kinds_of(&self) -> Seq<u64> {
        self.kinds@
    }

    pub fn new(kinds: Vec<u64>) -> (r: Self)
        ensures
            r.kinds_of() == kinds@,
    {
        Archetype { kinds }
    }

    pub fn kinds(&self) -> (r: &Vec<u64>)
        ensures
            r@ == self.kinds_of(),
    {
        &self.kinds
    }
}

} // verus!

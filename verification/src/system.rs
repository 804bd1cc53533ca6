//! The type-erased unit of computation an outer system can embed: it carries
//! its owning world's identity and its declared access set, computes an output
//! from its input and the component values it declares to read, writes the
//! output to the kinds it declares to write, and records deferred writes that
//! are flushed only at the scheduler's apply point.

use vstd::prelude::*;

use crate::access::AccessMode;
use crate::access::AccessSet;
use crate::access::kinds_set;
use crate::access::merge_one;
use crate::access::union_acc;
use crate::world::Archetype;
use crate::world::DeferredWorld;
use crate::world::World;

verus! {

/// One declaration pass: every kind of `ks` merged into `m` with mode `a`.
pub open spec fn merge_kinds(m: Map<u64, AccessMode>, ks: Seq<u64>, a: AccessMode) -> Map<
    u64,
    AccessMode,
>
    decreases ks.len(),
{
    if ks.len() == 0 {
        m
    } else {
        merge_one(merge_kinds(m, ks.drop_last(), a), ks.last(), a)
    }
}

/// The access set a system derives from its behaviour: a read for every kind
/// it reads, a write for every kind it writes directly or defers.
pub open spec fn derived_access(reads: Seq<u64>, writes: Seq<u64>, defers: Seq<u64>) -> Map<
    u64,
    AccessMode,
> {
    merge_kinds(
        merge_kinds(merge_kinds(Map::empty(), reads, AccessMode::Read), writes, AccessMode::Write),
        defers,
        AccessMode::Write,
    )
}

/// A missing component kind reads as zero.
pub open spec fn val_or_zero(w: Map<u64, u64>, k: u64) -> u64 {
    if w.dom().contains(k) {
        w[k]
    } else {
        0
    }
}

/// Folding the listed component values into an accumulator, left to right.
pub open spec fn xor_fold(w: Map<u64, u64>, ks: Seq<u64>, acc: u64) -> u64
    decreases ks.len(),
{
    if ks.len() == 0 {
        acc
    } else {
        xor_fold(w, ks.drop_last(), acc) ^ val_or_zero(w, ks.last())
    }
}

/// Writing `v` to every listed kind, left to right.
pub open spec fn write_all(w: Map<u64, u64>, ks: Seq<u64>, v: u64) -> Map<u64, u64>
    decreases ks.len(),
{
    if ks.len() == 0 {
        w
    } else {
        write_all(w, ks.drop_last(), v).insert(ks.last(), v)
    }
}

/// The deferred-write commands a run records: `v` for each listed kind.
pub open spec fn defer_delta(ks: Seq<u64>, v: u64) -> Seq<(u64, u64)>
    decreases ks.len(),
{
    if ks.len() == 0 {
        Seq::empty()
    } else {
        defer_delta(ks.drop_last(), v).push((ks.last(), v))
    }
}

/// Playing a command batch back against the store, in recording order.
pub open spec fn apply_all(w: Map<u64, u64>, p: Seq<(u64, u64)>) -> Map<u64, u64>
    decreases p.len(),
{
    if p.len() == 0 {
        w
    } else {
        apply_all(w, p.drop_last()).insert(p.last().0, p.last().1)
    }
}

/// The owned, type-erased runnable unit an outer system embeds.
pub struct BoxedSystem {
    world_id: u64,
    access: AccessSet,
    reads: Vec<u64>,
    writes: Vec<u64>,
    defers: Vec<u64>,
    pending: Vec<(u64, u64)>,
    archetype_access: AccessSet,
}

/// The output of a run: the input folded with every component value the
/// system declares to read.
pub open spec fn run_out(s: BoxedSystem, input: u64, w: Map<u64, u64>) -> u64 {
    xor_fold(w, s.reads_of(), input)
}

/// The store after a run: the output written to every directly-written kind;
/// deferred kinds are untouched until the apply point.
pub open spec fn run_world(s: BoxedSystem, input: u64, w: Map<u64, u64>) -> Map<u64, u64> {
    write_all(w, s.writes_of(), run_out(s, input, w))
}

/// Everything fixed at construction: identity, declarations, cached
/// archetype access.  Only the pending command queue may differ.
pub open spec fn same_decl(a: BoxedSystem, b: BoxedSystem) -> bool {
    a.wid() == b.wid() && a.access_of() == b.access_of() && a.reads_of() == b.reads_of()
        && a.writes_of() == b.writes_of() && a.defers_of() == b.defers_of() && a.arch_access_of()
        == b.arch_access_of()
}

impl BoxedSystem {
    /// The identity of the world this system was built for.
    pub closed spec fn wid(&self) -> u64 {
        self.world_id
    }

    /// The declared access set.
    pub closed spec fn access_of(&self) -> Map<u64, AccessMode> {
        self.access@
    }

    /// The cached per-archetype access.
    pub closed spec fn arch_access_of(&self) -> Map<u64, AccessMode> {
        self.archetype_access@
    }

    pub closed spec fn reads_of(&self) -> Seq<u64> {
        self.reads@
    }

    pub closed spec fn writes_of(&self) -> Seq<u64> {
        self.writes@
    }

    pub closed spec fn defers_of(&self) -> Seq<u64> {
        self.defers@
    }

    /// The deferred writes recorded but not yet flushed.
    pub closed spec fn pending_of(&self) -> Seq<(u64, u64)> {
        self.pending@
    }

    /// The declared access set covers the behaviour: reads are declared, and
    /// every directly-written or deferred kind is declared as a write.
    pub closed spec fn wf(&self) -> bool {
        &&& self.access.wf()
        &&& self.archetype_access.wf()
        &&& forall|i: int|
            0 <= i < self.reads@.len() ==> self.access@.dom().contains(#[trigger] self.reads@[i])
        &&& forall|i: int|
            0 <= i < self.writes@.len() ==> self.access@.dom().contains(#[trigger] self.writes@[i])
                && self.access@[self.writes@[i]] == AccessMode::Write
        &&& forall|i: int|
            0 <= i < self.defers@.len() ==> self.access@.dom().contains(#[trigger] self.defers@[i])
                && self.access@[self.defers@[i]] == AccessMode::Write
    }

    /// Builds a system owned by the world with identity `world_id`.  Its
    /// declared access set is derived from the kinds it touches.
    pub fn new(world_id: u64, reads: Vec<u64>, writes: Vec<u64>, defers: Vec<u64>) -> (r: Self)
        ensures
            r.wf(),
            r.wid() == world_id,
            r.reads_of() == reads@,
            r.writes_of() == writes@,
            r.defers_of() == defers@,
            r.pending_of() == Seq::<(u64, u64)>::empty(),
            r.access_of() == derived_access(reads@, writes@, defers@),
            r.arch_access_of() == Map::<u64, AccessMode>::empty(),
    {
        let mut access = AccessSet::new();
        merge_kinds_into(&mut access, &reads, AccessMode::Read);
        merge_kinds_into(&mut access, &writes, AccessMode::Write);
        merge_kinds_into(&mut access, &defers, AccessMode::Write);
        proof {
            let m1 = merge_kinds(Map::empty(), reads@, AccessMode::Read);
            let m2 = merge_kinds(m1, writes@, AccessMode::Write);
            let m3 = merge_kinds(m2, defers@, AccessMode::Write);
            assert forall|ii: int| 0 <= ii < reads@.len() implies m3.dom().contains(
                #[trigger] reads@[ii],
            ) by {
                let k = reads@[ii];
                assert(reads@.contains(k));
                lemma_merge_kinds_at(Map::empty(), reads@, AccessMode::Read, k);
                lemma_merge_kinds_at(m1, writes@, AccessMode::Write, k);
                lemma_merge_kinds_at(m2, defers@, AccessMode::Write, k);
            }
            assert forall|ii: int| 0 <= ii < writes@.len() implies m3.dom().contains(
                #[trigger] writes@[ii],
            ) && m3[writes@[ii]] == AccessMode::Write by {
                let k = writes@[ii];
                assert(writes@.contains(k));
                lemma_merge_kinds_at(m1, writes@, AccessMode::Write, k);
                lemma_merge_kinds_at(m2, defers@, AccessMode::Write, k);
            }
            assert forall|ii: int| 0 <= ii < defers@.len() implies m3.dom().contains(
                #[trigger] defers@[ii],
            ) && m3[defers@[ii]] == AccessMode::Write by {
                let k = defers@[ii];
                assert(defers@.contains(k));
                lemma_merge_kinds_at(m2, defers@, AccessMode::Write, k);
            }
        }
        BoxedSystem {
            world_id,
            access,
            reads,
            writes,
            defers,
            pending: Vec::new(),
            archetype_access: AccessSet::new(),
        }
    }

    pub fn world_id(&self) -> (r: u64)
        ensures
            r == self.wid(),
    {
        self.world_id
    }

    /// The declared access set, as handed to the scheduler.
    pub fn component_access_set(&self) -> (r: &AccessSet)
        requires
            self.wf(),
        ensures
            r@ == self.access_of(),
            r.wf(),
    {
        &self.access
    }

    /// The cached archetype-level access.
    pub fn archetype_component_access(&self) -> (r: &AccessSet)
        requires
            self.wf(),
        ensures
            r@ == self.arch_access_of(),
            r.wf(),
    {
        &self.archetype_access
    }

    pub fn pending_len(&self) -> (r: usize)
        ensures
            r == self.pending_of().len(),
    {
        self.pending.len()
    }

    /// Runs the system once against `world`: computes the output from the
    /// declared reads, writes it to the directly-written kinds, and records a
    /// deferred write of it for each deferred kind.
    pub fn run(&mut self, input: u64, world: &mut World) -> (out: u64)
        requires
            old(self).wf(),
            old(world).wf(),
            old(world).wid() == old(self).wid(),
        ensures
            final(self).wf(),
            final(world).wf(),
            final(world).wid() == old(world).wid(),
            out == run_out(*old(self), input, old(world)@),
            final(world)@ == run_world(*old(self), input, old(world)@),
            final(self).pending_of() == old(self).pending_of() + defer_delta(
                old(self).defers_of(),
                out,
            ),
            same_decl(*final(self), *old(self)),
    {
        let ghost w0 = world@;
        let ghost wid0 = world.wid();
        let ghost rs = self.reads@;
        let mut acc = input;
        let n = self.reads.len();
        let mut i: usize = 0;
        while i < n
            invariant
                i <= n,
                n == rs.len(),
                rs == self.reads@,
                world.wf(),
                world@ == w0,
                acc == xor_fold(w0, rs.take(i as int), input),
            decreases n - i,
        {
            let k = self.reads[i];
            let v = match world.read(k) {
                Some(x) => x,
                None => 0,
            };
            proof {
                lemma_xor_fold_take_step(w0, rs, i as int, input);
            }
            acc = acc ^ v;
            i += 1;
        }
        proof {
            assert(rs.take(n as int) =~= rs);
        }
        let out = acc;

        let ghost ws = self.writes@;
        let m = self.writes.len();
        let mut j: usize = 0;
        while j < m
            invariant
                j <= m,
                m == ws.len(),
                ws == self.writes@,
                world.wf(),
                world.wid() == wid0,
                world@ == write_all(w0, ws.take(j as int), out),
            decreases m - j,
        {
            let k = self.writes[j];
            proof {
                lemma_write_all_take_step(w0, ws, j as int, out);
            }
            world.write(k, out);
            j += 1;
        }
        proof {
            assert(ws.take(m as int) =~= ws);
        }

        let ghost ds = self.defers@;
        let mut batch: Vec<(u64, u64)> = Vec::new();
        let d = self.defers.len();
        let mut l: usize = 0;
        while l < d
            invariant
                l <= d,
                d == ds.len(),
                ds == self.defers@,
                batch@ == defer_delta(ds.take(l as int), out),
            decreases d - l,
        {
            let k = self.defers[l];
            proof {
                lemma_defer_delta_take_step(ds, l as int, out);
            }
            batch.push((k, out));
            l += 1;
        }
        proof {
            assert(ds.take(d as int) =~= ds);
        }
        self.pending.append(&mut batch);
        out
    }

    /// Flushes every recorded deferred write into `world`, in recording
    /// order, exactly once: afterwards nothing is left pending.
    pub fn apply_deferred(&mut self, world: &mut World)
        requires
            old(self).wf(),
            old(world).wf(),
            old(world).wid() == old(self).wid(),
        ensures
            final(self).wf(),
            final(world).wf(),
            final(world).wid() == old(world).wid(),
            final(world)@ == apply_all(old(world)@, old(self).pending_of()),
            final(self).pending_of() == Seq::<(u64, u64)>::empty(),
            same_decl(*final(self), *old(self)),
    {
        let ghost w0 = world@;
        let ghost wid0 = world.wid();
        let ghost ps = self.pending@;
        let n = self.pending.len();
        let mut i: usize = 0;
        while i < n
            invariant
                i <= n,
                n == ps.len(),
                ps == self.pending@,
                world.wf(),
                world.wid() == wid0,
                world@ == apply_all(w0, ps.take(i as int)),
            decreases n - i,
        {
            let c = self.pending[i];
            proof {
                lemma_apply_all_take_step(w0, ps, i as int);
            }
            world.write(c.0, c.1);
            i += 1;
        }
        proof {
            assert(ps.take(n as int) =~= ps);
        }
        self.pending.clear();
    }

    /// Forwards every recorded deferred write into the deferred world's
    /// command queue instead of applying it.
    pub fn queue_deferred(&mut self, world: &mut DeferredWorld)
        requires
            old(self).wf(),
        ensures
            final(self).wf(),
            final(world)@ == old(world)@ + old(self).pending_of(),
            final(self).pending_of() == Seq::<(u64, u64)>::empty(),
            same_decl(*final(self), *old(self)),
    {
        world.append_commands(&mut self.pending);
    }

    /// Reacts to a newly seen archetype: the declared accesses that touch the
    /// archetype's kinds are cached into the archetype-level access.
    pub fn new_archetype(&mut self, archetype: &Archetype)
        requires
            old(self).wf(),
        ensures
            final(self).wf(),
            final(self).arch_access_of() == union_acc(
                old(self).arch_access_of(),
                old(self).access_of().restrict(kinds_set(archetype.kinds_of())),
            ),
            final(self).wid() == old(self).wid(),
            final(self).access_of() == old(self).access_of(),
            final(self).reads_of() == old(self).reads_of(),
            final(self).writes_of() == old(self).writes_of(),
            final(self).defers_of() == old(self).defers_of(),
            final(self).pending_of() == old(self).pending_of(),
    {
        let touched = self.access.restrict_to(archetype.kinds());
        self.archetype_access.extend(&touched);
    }
}

/// One declaration pass over a vector of kinds, merged into `acc`.
fn merge_kinds_into(acc: &mut AccessSet, ks: &Vec<u64>, mode: AccessMode)
    requires
        old(acc).wf(),
    ensures
        final(acc).wf(),
        final(acc)@ == merge_kinds(old(acc)@, ks@, mode),
{
    let ghost a0 = acc@;
    let ghost s = ks@;
    let n = ks.len();
    let mut i: usize = 0;
    while i < n
        invariant
            i <= n,
            n == s.len(),
            s == ks@,
            acc.wf(),
            acc@ == merge_kinds(a0, s.take(i as int), mode),
        decreases n - i,
    {
        let k = ks[i];
        proof {
            lemma_merge_kinds_take_step(a0, s, i as int, mode);
        }
        acc.declare(k, mode);
        i += 1;
    }
    proof {
        assert(s.take(n as int) =~= s);
    }
}

proof fn lemma_merge_kinds_take_step(m: Map<u64, AccessMode>, s: Seq<u64>, i: int, a: AccessMode)
    requires
        0 <= i < s.len(),
    ensures
        merge_kinds(m, s.take(i + 1), a) == merge_one(merge_kinds(m, s.take(i), a), s[i], a),
{
    assert(s.take(i + 1).drop_last() =~= s.take(i));
    assert(s.take(i + 1).last() == s[i]);
}

proof fn lemma_xor_fold_take_step(w: Map<u64, u64>, s: Seq<u64>, i: int, acc: u64)
    requires
        0 <= i < s.len(),
    ensures
        xor_fold(w, s.take(i + 1), acc) == xor_fold(w, s.take(i), acc) ^ val_or_zero(w, s[i]),
{
    assert(s.take(i + 1).drop_last() =~= s.take(i));
    assert(s.take(i + 1).last() == s[i]);
}

proof fn lemma_write_all_take_step(w: Map<u64, u64>, s: Seq<u64>, i: int, v: u64)
    requires
        0 <= i < s.len(),
    ensures
        write_all(w, s.take(i + 1), v) == write_all(w, s.take(i), v).insert(s[i], v),
{
    assert(s.take(i + 1).drop_last() =~= s.take(i));
    assert(s.take(i + 1).last() == s[i]);
}

proof fn lemma_defer_delta_take_step(s: Seq<u64>, i: int, v: u64)
    requires
        0 <= i < s.len(),
    ensures
        defer_delta(s.take(i + 1), v) == defer_delta(s.take(i), v).push((s[i], v)),
{
    assert(s.take(i + 1).drop_last() =~= s.take(i));
    assert(s.take(i + 1).last() == s[i]);
}

proof fn lemma_apply_all_take_step(w: Map<u64, u64>, s: Seq<(u64, u64)>, i: int)
    requires
        0 <= i < s.len(),
    ensures
        apply_all(w, s.take(i + 1)) == apply_all(w, s.take(i)).insert(s[i].0, s[i].1),
{
    assert(s.take(i + 1).drop_last() =~= s.take(i));
    assert(s.take(i + 1).last() == s[i]);
}

/// What one declaration pass guarantees for one kind: a listed kind ends up
/// declared, a write pass pins its mode to write, and an unlisted kind is
/// untouched.
pub proof fn lemma_merge_kinds_at(m: Map<u64, AccessMode>, ks: Seq<u64>, a: AccessMode, k: u64)
    ensures
        ks.contains(k) ==> merge_kinds(m, ks, a).dom().contains(k),
        m.dom().contains(k) ==> merge_kinds(m, ks, a).dom().contains(k),
        a == AccessMode::Write && ks.contains(k) ==> merge_kinds(m, ks, a)[k] == AccessMode::Write,
        !ks.contains(k) ==> (merge_kinds(m, ks, a).dom().contains(k) <==> m.dom().contains(k)) && (
        m.dom().contains(k) ==> merge_kinds(m, ks, a)[k] == m[k]),
    decreases ks.len(),
{
    if ks.len() == 0 {
    } else {
        let t = ks.drop_last();
        lemma_merge_kinds_at(m, t, a, k);
        assert(ks[ks.len() - 1] == ks.last());
        if ks.contains(k) {
            let i = choose|i: int| 0 <= i < ks.len() && ks[i] == k;
            if i < ks.len() - 1 {
                assert(t[i] == k);
                assert(t.contains(k));
            } else {
                assert(k == ks.last());
            }
        }
        if t.contains(k) {
            let i = choose|i: int| 0 <= i < t.len() && t[i] == k;
            assert(ks[i] == k);
            assert(ks.contains(k));
        }
    }
}

} // verus!

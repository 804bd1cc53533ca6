//! The guarantees the embedding rests on, stated and proved once over the
//! specifications that the builder, the handle and the hooks promise.

use vstd::prelude::*;

use crate::access::AccessMode;
use crate::access::compatible;
use crate::access::union_acc;
use crate::inner::BuildError;
use crate::inner::InnerSystem;
use crate::inner::validate;
use crate::kv::map_get;
use crate::system::BoxedSystem;
use crate::system::apply_all;
use crate::system::defer_delta;
use crate::system::run_out;
use crate::system::run_world;
use crate::system::write_all;

verus! {

/// Access sets over disjoint component kinds are compatible, and their union
/// keeps every declaration of both sides unchanged.
pub proof fn lemma_disjoint_accesses_union(a: Map<u64, AccessMode>, b: Map<u64, AccessMode>)
    requires
        a.dom().disjoint(b.dom()),
    ensures
        compatible(a, b),
        union_acc(a, b).dom() == a.dom() + b.dom(),
        forall|k: u64| a.dom().contains(k) ==> union_acc(a, b)[k] == a[k],
        forall|k: u64| b.dom().contains(k) ==> union_acc(a, b)[k] == b[k],
{
    assert(union_acc(a, b).dom() =~= a.dom() + b.dom());
}

/// A supplied system built for the destination world whose declared kinds
/// touch none of the outer system's passes every validation step.
pub proof fn lemma_disjoint_embedding_accepted(s: BoxedSystem, world_id: u64, outer: Map<u64, AccessMode>)
    requires
        s.wid() == world_id,
        s.access_of().dom().disjoint(outer.dom()),
    ensures
        validate(Option::Some(s), world_id, outer) == Option::<BuildError>::None,
{
    lemma_disjoint_accesses_union(s.access_of(), outer);
}

/// Sharing component kinds is harmless as long as both sides only read them:
/// such an embedding is accepted.
pub proof fn lemma_read_read_accepted(s: BoxedSystem, world_id: u64, outer: Map<u64, AccessMode>)
    requires
        s.wid() == world_id,
        forall|k: u64|
            s.access_of().dom().contains(k) && outer.dom().contains(k) ==> s.access_of()[k]
                == AccessMode::Read && #[trigger] outer[k] == AccessMode::Read,
    ensures
        validate(Option::Some(s), world_id, outer) == Option::<BuildError>::None,
{
}

/// If either side writes a component kind the other also declares, the
/// embedding is rejected with the conflicting-access error, so no state is
/// ever produced from it.
pub proof fn lemma_write_overlap_rejected(
    s: BoxedSystem,
    world_id: u64,
    outer: Map<u64, AccessMode>,
    k: u64,
)
    requires
        s.wid() == world_id,
        s.access_of().dom().contains(k),
        outer.dom().contains(k),
        s.access_of()[k] == AccessMode::Write || outer[k] == AccessMode::Write,
    ensures
        validate(Option::Some(s), world_id, outer) == Option::Some(BuildError::ConflictingAccess),
{
    assert(!(s.access_of()[k] == AccessMode::Read && outer[k] == AccessMode::Read));
    assert(!compatible(s.access_of(), outer));
}

/// Finishing a builder that never received a system is rejected with the
/// missing-system error, whatever the world and the outer accesses are.
pub proof fn lemma_missing_system_rejected(world_id: u64, outer: Map<u64, AccessMode>)
    ensures
        validate(Option::<BoxedSystem>::None, world_id, outer) == Option::Some(
            BuildError::MissingSystem,
        ),
{
}

/// A world-identity mismatch is rejected unconditionally, even when the
/// access sets would be compatible.
pub proof fn lemma_world_mismatch_rejected(
    s: BoxedSystem,
    world_id: u64,
    outer: Map<u64, AccessMode>,
)
    requires
        s.wid() != world_id,
    ensures
        validate(Option::Some(s), world_id, outer) == Option::Some(BuildError::WorldMismatch),
{
}

/// The embedding is transparent at run time: what a handle's run promises —
/// the output, the store after the run, and the deferred writes recorded —
/// is exactly what running the same boxed system standalone against the same
/// world state promises, because both contracts are stated over the same run
/// specification.
pub proof fn lemma_handle_run_transparent(
    h: InnerSystem,
    s: BoxedSystem,
    input: u64,
    w: Map<u64, u64>,
)
    requires
        h.sys() == s,
    ensures
        run_out(h.sys(), input, w) == run_out(s, input, w),
        run_world(h.sys(), input, w) == run_world(s, input, w),
        defer_delta(h.sys().defers_of(), run_out(s, input, w)) == defer_delta(
            s.defers_of(),
            run_out(s, input, w),
        ),
{
}

/// Writing a value to a list of kinds leaves every other kind of the store
/// untouched.
pub proof fn lemma_write_all_untouched(w: Map<u64, u64>, ks: Seq<u64>, v: u64, k: u64)
    requires
        !ks.contains(k),
    ensures
        map_get(write_all(w, ks, v), k) == map_get(w, k),
    decreases ks.len(),
{
    if ks.len() == 0 {
    } else {
        let t = ks.drop_last();
        assert(ks[ks.len() - 1] == ks.last());
        assert(k != ks.last());
        if t.contains(k) {
            let i = choose|i: int| 0 <= i < t.len() && t[i] == k;
            assert(ks[i] == k);
            assert(ks.contains(k));
        }
        lemma_write_all_untouched(w, t, v, k);
    }
}

/// A deferred write is not observable during the run that records it: a run
/// changes only the kinds the system writes directly, so a kind that is
/// deferred but not directly written still reads as before.
pub proof fn lemma_deferred_not_applied_by_run(
    s: BoxedSystem,
    input: u64,
    w: Map<u64, u64>,
    k: u64,
)
    requires
        s.defers_of().contains(k),
        !s.writes_of().contains(k),
    ensures
        map_get(run_world(s, input, w), k) == map_get(w, k),
{
    lemma_write_all_untouched(w, s.writes_of(), run_out(s, input, w), k);
}

/// A deferred write is applied exactly once: the apply point empties the
/// pending queue, and flushing an empty queue changes nothing, so a second
/// apply point leaves the store as the first one did.
pub proof fn lemma_apply_empty_is_identity(w: Map<u64, u64>)
    ensures
        apply_all(w, Seq::<(u64, u64)>::empty()) == w,
{
}

} // verus!

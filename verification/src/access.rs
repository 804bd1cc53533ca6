//! Declared access sets: which component kinds a system reads or writes.
//!
//! Two systems may run against the same world concurrently only if their
//! declared access sets are compatible: on every component kind both declare,
//! both must declare a read.  The scheduler's conflict analysis rests on these
//! declarations alone, so the builder in `inner` unions the embedded system's
//! set into the outer system's before the scheduler ever sees it.

use vstd::prelude::*;

use crate::kv::KvStore;
use crate::kv::kv_has_key;
use crate::kv::kv_map;
use crate::kv::lemma_kv_take_step;
use crate::kv::map_get;

verus! {

#[derive(Clone, Copy, PartialEq, Eq, Structural, Debug)]
pub enum AccessMode {
    Read,
    Write,
}

/// The stronger of two requested modes.
pub open spec fn join(a: AccessMode, b: AccessMode) -> AccessMode {
    if a == AccessMode::Write || b == AccessMode::Write {
        AccessMode::Write
    } else {
        AccessMode::Read
    }
}

/// Adding one declaration to a set: a repeated kind keeps the stronger mode.
pub open spec fn merge_one(m: Map<u64, AccessMode>, k: u64, a: AccessMode) -> Map<u64, AccessMode> {
    m.insert(k, if m.dom().contains(k) { join(m[k], a) } else { a })
}

/// The union of two declarations, kind by kind.
pub open spec fn union_acc(a: Map<u64, AccessMode>, b: Map<u64, AccessMode>) -> Map<
    u64,
    AccessMode,
> {
    Map::new(
        |k: u64| a.dom().contains(k) || b.dom().contains(k),
        |k: u64|
            if a.dom().contains(k) && b.dom().contains(k) {
                join(a[k], b[k])
            } else if b.dom().contains(k) {
                b[k]
            } else {
                a[k]
            },
    )
}

/// Two sets may coexist iff every kind present in both is only read by both.
pub open spec fn compatible(a: Map<u64, AccessMode>, b: Map<u64, AccessMode>) -> bool {
    forall|k: u64|
        a.dom().contains(k) && b.dom().contains(k) ==> a[k] == AccessMode::Read && #[trigger] b[k]
            == AccessMode::Read
}

/// The set of kinds listed in a sequence.
pub open spec fn kinds_set(ks: Seq<u64>) -> Set<u64> {
    Set::new(|k: u64| ks.contains(k))
}

/// A system's declared access over component kinds.
pub struct AccessSet {
    inner: KvStore<AccessMode>,
}

impl View for AccessSet {
    type V = Map<u64, AccessMode>;

    closed spec fn view(&self) -> Map<u64, AccessMode> {
        self.inner@
    }
}

impl AccessSet {
    pub closed spec fn wf(&self) -> bool {
        self.inner.wf()
    }

    pub fn new() -> (r: Self)
        ensures
            r@ == Map::<u64, AccessMode>::empty(),
            r.wf(),
    {
        AccessSet { inner: KvStore::new() }
    }

    /// The mode this set declares for `k`, if any.
    pub fn get(&self, k: u64) -> (r: Option<AccessMode>)
        requires
            self.wf(),
        ensures
            r == map_get(self@, k),
    {
        self.inner.get(k)
    }

    /// Declares `mode` access to kind `k`; a write is never weakened.
    pub fn declare(&mut self, k: u64, mode: AccessMode)
        requires
            old(self).wf(),
        ensures
            final(self).wf(),
            final(self)@ == merge_one(old(self)@, k, mode),
    {
        match self.inner.get(k) {
            Some(m0) => {
                let joined = if matches!(m0, AccessMode::Write) || matches!(
                    mode,
                    AccessMode::Write,
                ) {
                    AccessMode::Write
                } else {
                    AccessMode::Read
                };
                self.inner.set(k, joined);
            },
            None => {
                self.inner.set(k, mode);
            },
        }
    }

    /// Folds every declaration of `other` into `self`.
    pub fn extend(&mut self, other: &AccessSet)
        requires
            old(self).wf(),
            other.wf(),
        ensures
            final(self).wf(),
            final(self)@ == union_acc(old(self)@, other@),
    {
        proof {
            other.lemma_view_inner();
            lemma_union_empty(self@);
        }
        let ghost a0 = self@;
        let ghost os = other.inner.kv_seq();
        let n = other.inner.count();
        let mut i: usize = 0;
        while i < n
            invariant
                i <= n,
                n == os.len(),
                os == other.inner.kv_seq(),
                other.wf(),
                crate::kv::kv_unique(os),
                forall|j: int|
                    0 <= j < os.len() ==> other@.dom().contains(#[trigger] os[j].0),
                self.wf(),
                self@ == union_acc(a0, kv_map(os.take(i as int))),
            decreases n - i,
        {
            let e = other.inner.entry_at(i);
            proof {
                lemma_kv_take_step(os, i as int);
                lemma_union_insert(a0, kv_map(os.take(i as int)), os[i as int].0, os[i as int].1);
            }
            self.declare(e.0, e.1);
            i += 1;
        }
        proof {
            assert(os.take(n as int) =~= os);
        }
    }

    /// Whether two declared sets may touch the same world concurrently.
    pub fn is_compatible(&self, other: &AccessSet) -> (r: bool)
        requires
            self.wf(),
            other.wf(),
        ensures
            r == compatible(self@, other@),
    {
        proof {
            self.lemma_view_inner();
            other.lemma_view_inner();
        }
        let ghost ss = self.inner.kv_seq();
        let n = self.inner.count();
        let mut i: usize = 0;
        while i < n
            invariant
                i <= n,
                n == ss.len(),
                ss == self.inner.kv_seq(),
                self.wf(),
                other.wf(),
                forall|j: int|
                    0 <= j < ss.len() ==> self@.dom().contains(#[trigger] ss[j].0)
                        && self@[ss[j].0] == ss[j].1,
                forall|k: u64| self@.dom().contains(k) <==> kv_has_key(ss, k),
                forall|j: int|
                    0 <= j < i ==> !(other@.dom().contains(#[trigger] ss[j].0)) || (ss[j].1
                        == AccessMode::Read && other@[ss[j].0] == AccessMode::Read),
            decreases n - i,
        {
            let e = self.inner.entry_at(i);
            match other.get(e.0) {
                Some(m2) => {
                    if matches!(e.1, AccessMode::Write) || matches!(m2, AccessMode::Write) {
                        proof {
                            let ghost ki = ss[i as int].0;
                            assert(!(self@[ki] == AccessMode::Read && other@[ki]
                                == AccessMode::Read));
                        }
                        return false;
                    }
                },
                None => {},
            }
            i += 1;
        }
        proof {
            assert forall|k: u64|
                self@.dom().contains(k) && other@.dom().contains(k) implies self@[k]
                == AccessMode::Read && other@[k] == AccessMode::Read by {
                assert(kv_has_key(ss, k));
                let j = choose|j: int| 0 <= j < ss.len() && ss[j].0 == k;
                assert(!(other@.dom().contains(ss[j].0)) || (ss[j].1 == AccessMode::Read
                    && other@[ss[j].0] == AccessMode::Read));
            }
        }
        true
    }

    /// The part of this declaration that touches the listed kinds.
    pub fn restrict_to(&self, kinds: &Vec<u64>) -> (r: AccessSet)
        requires
            self.wf(),
        ensures
            r.wf(),
            r@ == self@.restrict(kinds_set(kinds@)),
    {
        proof {
            self.lemma_view_inner();
        }
        let ghost ss = self.inner.kv_seq();
        let ghost ks = kinds_set(kinds@);
        let mut out = AccessSet::new();
        proof {
            assert(out@ =~= kv_map(ss.take(0)).restrict(ks));
        }
        let n = self.inner.count();
        let mut i: usize = 0;
        while i < n
            invariant
                i <= n,
                n == ss.len(),
                ss == self.inner.kv_seq(),
                self.wf(),
                crate::kv::kv_unique(ss),
                ks == kinds_set(kinds@),
                out.wf(),
                out@ == kv_map(ss.take(i as int)).restrict(ks),
            decreases n - i,
        {
            let e = self.inner.entry_at(i);
            proof {
                lemma_kv_take_step(ss, i as int);
                lemma_restrict_insert(kv_map(ss.take(i as int)), ss[i as int].0, ss[i as int].1, ks);
                assert(ks.contains(ss[i as int].0) <==> kinds@.contains(ss[i as int].0));
            }
            if contains_kind(kinds, e.0) {
                proof {
                    lemma_merge_absent(out@, ss[i as int].0, ss[i as int].1);
                }
                out.declare(e.0, e.1);
            }
            i += 1;
        }
        proof {
            assert(ss.take(n as int) =~= ss);
        }
        out
    }

    /// Ties this set's map view to its walkable entry sequence.
    proof fn lemma_view_inner(&self)
        requires
            self.wf(),
        ensures
            crate::kv::kv_unique(self.inner.kv_seq()),
            self@ == kv_map(self.inner.kv_seq()),
            forall|k: u64| self@.dom().contains(k) <==> kv_has_key(self.inner.kv_seq(), k),
            forall|i: int|
                0 <= i < self.inner.kv_seq().len() ==> self@.dom().contains(
                    #[trigger] self.inner.kv_seq()[i].0,
                ) && self@[self.inner.kv_seq()[i].0] == self.inner.kv_seq()[i].1,
    {
        self.inner.lemma_view();
    }
}

/// Whether `kinds` lists `k`.
pub fn contains_kind(kinds: &Vec<u64>, k: u64) -> (r: bool)
    ensures
        r == kinds@.contains(k),
{
    let n = kinds.len();
    let mut i: usize = 0;
    while i < n
        invariant
            i <= n,
            n == kinds@.len(),
            forall|j: int| 0 <= j < i ==> kinds@[j] != k,
        decreases n - i,
    {
        if kinds[i] == k {
            return true;
        }
        i += 1;
    }
    false
}

pub proof fn lemma_union_empty(a: Map<u64, AccessMode>)
    ensures
        union_acc(a, Map::<u64, AccessMode>::empty()) == a,
{
    assert(union_acc(a, Map::<u64, AccessMode>::empty()) =~= a);
}

/// Extending the right-hand side of a union by a fresh kind is one merge step.
pub proof fn lemma_union_insert(a: Map<u64, AccessMode>, b: Map<u64, AccessMode>, k: u64, m: AccessMode)
    requires
        !b.dom().contains(k),
    ensures
        union_acc(a, b.insert(k, m)) == merge_one(union_acc(a, b), k, m),
{
    assert(union_acc(a, b.insert(k, m)) =~= merge_one(union_acc(a, b), k, m));
}

/// On a kind the map does not yet declare, a merge is a plain insert.
pub proof fn lemma_merge_absent(m: Map<u64, AccessMode>, k: u64, a: AccessMode)
    requires
        !m.dom().contains(k),
    ensures
        merge_one(m, k, a) == m.insert(k, a),
{
}

/// Restricting after inserting a fresh kind keeps or drops just that kind.
pub proof fn lemma_restrict_insert(
    m: Map<u64, AccessMode>,
    k: u64,
    a: AccessMode,
    ks: Set<u64>,
)
    ensures
        ks.contains(k) ==> m.insert(k, a).restrict(ks) == m.restrict(ks).insert(k, a),
        !ks.contains(k) && !m.dom().contains(k) ==> m.insert(k, a).restrict(ks) == m.restrict(ks),
{
    if ks.contains(k) {
        assert(m.insert(k, a).restrict(ks) =~= m.restrict(ks).insert(k, a));
    } else if !m.dom().contains(k) {
        assert(m.insert(k, a).restrict(ks) =~= m.restrict(ks));
    }
}

} // verus!

//! A small keyed store: a vector of `(kind, value)` pairs with unique kinds,
//! viewed as a finite map from component kind to value.  Both the access-set
//! bookkeeping and the component store of a world are instances of it.

use vstd::prelude::*;

verus! {

/// The map described by an association sequence; later entries win.
pub open spec fn kv_map<V>(s: Seq<(u64, V)>) -> Map<u64, V>
    decreases s.len(),
{
    if s.len() == 0 {
        Map::empty()
    } else {
        kv_map(s.drop_last()).insert(s.last().0, s.last().1)
    }
}

/// Some entry of `s` carries the kind `k`.
pub open spec fn kv_has_key<V>(s: Seq<(u64, V)>, k: u64) -> bool {
    exists|i: int| 0 <= i < s.len() && s[i].0 == k
}

/// No kind occurs twice.
pub open spec fn kv_unique<V>(s: Seq<(u64, V)>) -> bool {
    forall|i: int, j: int| 0 <= i < j < s.len() ==> s[i].0 != s[j].0
}

/// Lookup that yields `None` for an absent key.
pub open spec fn map_get<V>(m: Map<u64, V>, k: u64) -> Option<V> {
    if m.dom().contains(k) {
        Some(m[k])
    } else {
        None
    }
}

pub proof fn lemma_kv_dom<V>(s: Seq<(u64, V)>)
    ensures
        forall|k: u64| kv_map(s).dom().contains(k) <==> kv_has_key(s, k),
    decreases s.len(),
{
    if s.len() == 0 {
    } else {
        let t = s.drop_last();
        lemma_kv_dom(t);
        assert forall|k: u64| kv_map(s).dom().contains(k) <==> kv_has_key(s, k) by {
            if kv_map(s).dom().contains(k) {
                if k == s.last().0 {
                    assert(s[s.len() - 1].0 == k);
                } else {
                    assert(kv_map(t).dom().contains(k));
                    assert(kv_has_key(t, k));
                    let i = choose|i: int| 0 <= i < t.len() && t[i].0 == k;
                    assert(t[i] == s[i]);
                    assert(s[i].0 == k);
                }
            }
            if kv_has_key(s, k) {
                let i = choose|i: int| 0 <= i < s.len() && s[i].0 == k;
                if i < s.len() - 1 {
                    assert(t[i] == s[i]);
                    assert(t[i].0 == k);
                    assert(kv_has_key(t, k));
                    assert(kv_map(t).dom().contains(k));
                } else {
                    assert(s.last().0 == k);
                }
                assert(kv_map(s).dom().contains(k));
            }
        }
    }
}

pub proof fn lemma_kv_index<V>(s: Seq<(u64, V)>)
    requires
        kv_unique(s),
    ensures
        forall|i: int|
            0 <= i < s.len() ==> kv_map(s).dom().contains(#[trigger] s[i].0) && kv_map(s)[s[i].0]
                == s[i].1,
    decreases s.len(),
{
    if s.len() == 0 {
    } else {
        let t = s.drop_last();
        lemma_kv_index(t);
        assert forall|i: int|
            0 <= i < s.len() implies kv_map(s).dom().contains(#[trigger] s[i].0) && kv_map(
            s,
        )[s[i].0] == s[i].1 by {
            if i < s.len() - 1 {
                assert(t[i] == s[i]);
                assert(s[i].0 != s.last().0);
            }
        }
    }
}

pub proof fn lemma_kv_update<V>(s: Seq<(u64, V)>, i: int, v: V)
    requires
        kv_unique(s),
        0 <= i < s.len(),
    ensures
        kv_unique(s.update(i, (s[i].0, v))),
        kv_map(s.update(i, (s[i].0, v))) == kv_map(s).insert(s[i].0, v),
{
    let s2 = s.update(i, (s[i].0, v));
    assert(forall|j: int| 0 <= j < s.len() ==> s2[j].0 == s[j].0);
    assert(kv_unique(s2));
    lemma_kv_dom(s);
    lemma_kv_dom(s2);
    lemma_kv_index(s);
    lemma_kv_index(s2);
    assert forall|k: u64| #![auto]
        kv_map(s2).dom().contains(k) <==> kv_map(s).insert(s[i].0, v).dom().contains(k) by {
        if kv_has_key(s, k) {
            let j = choose|j: int| 0 <= j < s.len() && s[j].0 == k;
            assert(s2[j].0 == k);
        }
        if kv_has_key(s2, k) {
            let j = choose|j: int| 0 <= j < s2.len() && s2[j].0 == k;
            assert(s[j].0 == k);
        }
    }
    assert forall|k: u64| #![auto] kv_map(s2).dom().contains(k) implies kv_map(s2)[k] == kv_map(
        s,
    ).insert(s[i].0, v)[k] by {
        assert(kv_has_key(s2, k));
        let j = choose|j: int| 0 <= j < s2.len() && s2[j].0 == k;
        assert(kv_map(s2)[k] == s2[j].1);
        if j == i {
            assert(k == s[i].0);
        } else {
            assert(s[j].0 == k);
            assert(s[j].0 != s[i].0);
            assert(kv_map(s)[k] == s[j].1);
        }
    }
    assert(kv_map(s2) =~= kv_map(s).insert(s[i].0, v));
}

pub proof fn lemma_kv_push<V>(s: Seq<(u64, V)>, k: u64, v: V)
    requires
        kv_unique(s),
        !kv_has_key(s, k),
    ensures
        kv_unique(s.push((k, v))),
        kv_map(s.push((k, v))) == kv_map(s).insert(k, v),
{
    let s2 = s.push((k, v));
    assert(forall|j: int| 0 <= j < s.len() ==> s2[j] == s[j]);
    assert(kv_unique(s2));
    assert(s2.drop_last() =~= s);
    assert(s2.last() == (k, v));
    assert(kv_map(s2) == kv_map(s).insert(k, v));
}

/// Walking one more entry of a unique association sequence inserts one pair.
pub proof fn lemma_kv_take_step<V>(s: Seq<(u64, V)>, i: int)
    requires
        kv_unique(s),
        0 <= i < s.len(),
    ensures
        !kv_map(s.take(i)).dom().contains(s[i].0),
        kv_map(s.take(i + 1)) == kv_map(s.take(i)).insert(s[i].0, s[i].1),
{
    let t = s.take(i);
    lemma_kv_dom(t);
    assert(forall|j: int| 0 <= j < i ==> t[j] == s[j]);
    assert(!kv_has_key(t, s[i].0));
    assert(s.take(i + 1).drop_last() =~= t);
    assert(s.take(i + 1).last() == s[i]);
    assert(kv_map(s.take(i + 1)) == kv_map(t).insert(s[i].0, s[i].1));
}

/// The keyed store itself.
pub struct KvStore<V> {
    entries: Vec<(u64, V)>,
}

impl<V> View for KvStore<V> {
    type V = Map<u64, V>;

    closed spec fn view(&self) -> Map<u64, V> {
        kv_map(self.entries@)
    }
}

impl<V: Copy> KvStore<V> {
    /// The underlying association sequence, for callers that walk the store.
    pub closed spec fn kv_seq(&self) -> Seq<(u64, V)> {
        self.entries@
    }

    pub closed spec fn wf(&self) -> bool {
        kv_unique(self.entries@)
    }

    /// Ties the walkable sequence to the map view.
    pub proof fn lemma_view(&self)
        requires
            self.wf(),
        ensures
            kv_unique(self.kv_seq()),
            self@ == kv_map(self.kv_seq()),
            forall|k: u64| self@.dom().contains(k) <==> kv_has_key(self.kv_seq(), k),
            forall|i: int|
                0 <= i < self.kv_seq().len() ==> self@.dom().contains(
                    #[trigger] self.kv_seq()[i].0,
                ) && self@[self.kv_seq()[i].0] == self.kv_seq()[i].1,
    {
        lemma_kv_dom(self.entries@);
        lemma_kv_index(self.entries@);
    }

    pub fn new() -> (r: Self)
        ensures
            r@ == Map::<u64, V>::empty(),
            r.kv_seq() == Seq::<(u64, V)>::empty(),
            r.wf(),
    {
        KvStore { entries: Vec::new() }
    }

    pub fn count(&self) -> (r: usize)
        ensures
            r == self.kv_seq().len(),
    {
        self.entries.len()
    }

    pub fn entry_at(&self, i: usize) -> (r: (u64, V))
        requires
            i < self.kv_seq().len(),
        ensures
            r == self.kv_seq()[i as int],
    {
        self.entries[i]
    }

    /// Index of the entry carrying `k`, if any.
    fn find(&self, k: u64) -> (r: Option<usize>)
        ensures
            match r {
                Some(i) => i < self.entries@.len() && self.entries@[i as int].0 == k,
                None => !kv_has_key(self.entries@, k),
            },
    {
        let n = self.entries.len();
        let mut i: usize = 0;
        while i < n
            invariant
                i <= n,
                n == self.entries@.len(),
                forall|j: int| 0 <= j < i ==> self.entries@[j].0 != k,
            decreases n - i,
        {
            if self.entries[i].0 == k {
                return Some(i);
            }
            i += 1;
        }
        None
    }

    pub fn get(&self, k: u64) -> (r: Option<V>)
        requires
            self.wf(),
        ensures
            r == map_get(self@, k),
    {
        proof {
            lemma_kv_dom(self.entries@);
            lemma_kv_index(self.entries@);
        }
        match self.find(k) {
            Some(i) => Some(self.entries[i].1),
            None => None,
        }
    }

    pub fn set(&mut self, k: u64, v: V)
        requires
            old(self).wf(),
        ensures
            final(self).wf(),
            final(self)@ == old(self)@.insert(k, v),
    {
        match self.find(k) {
            Some(i) => {
                proof {
                    lemma_kv_update(self.entries@, i as int, v);
                }
                self.entries[i] = (k, v);
            },
            None => {
                proof {
                    lemma_kv_push(self.entries@, k, v);
                }
                self.entries.push((k, v));
            },
        }
    }
}

} // verus!

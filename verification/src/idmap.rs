//! A small map keyed by worker id, kept as a vector of entries with no key
//! twice.

use vstd::prelude::*;

verus! {

/// The map from each key of `s` to its value, the last entry for a key
/// winning.
pub open spec fn entries_map<V>(s: Seq<(i64, V)>) -> Map<i64, V>
    decreases s.len(),
{
    if s.len() == 0 {
        Map::empty()
    } else {
        entries_map(s.drop_last()).insert(s.last().0, s.last().1)
    }
}

/// No key appears twice in `s`.
pub open spec fn keys_distinct<V>(s: Seq<(i64, V)>) -> bool {
    forall|i: int, j: int| 0 <= i < j < s.len() ==> #[trigger] s[i].0 != #[trigger] s[j].0
}

/// With no key twice, a key is in the map exactly when it has an entry,
/// and maps to that entry's value.
pub proof fn lemma_entries_map<V>(s: Seq<(i64, V)>, k: i64)
    requires
        keys_distinct(s),
    ensures
        entries_map(s).dom().contains(k) <==> exists|i: int| 0 <= i < s.len() && s[i].0 == k,
        forall|i: int| 0 <= i < s.len() && s[i].0 == k ==> entries_map(s)[k] == s[i].1,
    decreases s.len(),
{
    if s.len() > 0 {
        let t = s.drop_last();
        assert(keys_distinct(t)) by {
            assert forall|i: int, j: int| 0 <= i < j < t.len() implies #[trigger] t[i].0
                != #[trigger] t[j].0 by {
                assert(t[i] == s[i] && t[j] == s[j]);
            }
        }
        lemma_entries_map(t, k);
        if entries_map(s).dom().contains(k) && s.last().0 != k {
            let i = choose|i: int| 0 <= i < t.len() && t[i].0 == k;
            assert(s[i] == t[i]);
        }
        if exists|i: int| 0 <= i < s.len() && s[i].0 == k {
            let i = choose|i: int| 0 <= i < s.len() && s[i].0 == k;
            if i < s.len() - 1 {
                assert(t[i] == s[i]);
            }
        }
        assert forall|i: int| 0 <= i < s.len() && s[i].0 == k implies entries_map(s)[k]
            == s[i].1 by {
            if i < s.len() - 1 {
                assert(t[i] == s[i]);
                assert(s[i].0 != s[s.len() - 1].0);
            }
        }
    }
}

/// Entries keyed by worker id.
pub struct IdMap<V> {
    entries: Vec<(i64, V)>,
}

impl<V: Copy> IdMap<V> {
    /// The map the entries stand for.
    pub closed spec fn map(&self) -> Map<i64, V> {
        entries_map(self.entries@)
    }

    /// No key is held twice.
    pub closed spec fn wf(&self) -> bool {
        keys_distinct(self.entries@)
    }

    /// The empty map.
    pub fn new() -> (r: Self)
        ensures
            r.wf(),
            r.map() == Map::<i64, V>::empty(),
    {
        IdMap { entries: Vec::new() }
    }

    fn find(&self, k: i64) -> (r: Option<usize>)
        ensures
            match r {
                Some(i) => i < self.entries@.len() && self.entries@[i as int].0 == k,
                None => forall|i: int| 0 <= i < self.entries@.len() ==> self.entries@[i].0 != k,
            },
    {
        let mut i: usize = 0;
        while i < self.entries.len()
            invariant
                i <= self.entries@.len(),
                forall|j: int| 0 <= j < i ==> self.entries@[j].0 != k,
            decreases self.entries@.len() - i,
        {
            if self.entries[i].0 == k {
                return Some(i);
            }
            i = i + 1;
        }
        None
    }

    /// The value held for `k`, if any.
    pub fn get(&self, k: i64) -> (r: Option<V>)
        requires
            self.wf(),
        ensures
            match r {
                Some(v) => self.map().dom().contains(k) && self.map()[k] == v,
                None => !self.map().dom().contains(k),
            },
    {
        proof {
            lemma_entries_map(self.entries@, k);
        }
        match self.find(k) {
            Some(i) => Some(self.entries[i].1),
            None => None,
        }
    }

    /// Whether a value is held for `k`.
    pub fn contains_key(&self, k: i64) -> (r: bool)
        requires
            self.wf(),
        ensures
            r == self.map().dom().contains(k),
    {
        self.get(k).is_some()
    }

    /// Drops the value held for `k`.
    pub fn remove(&mut self, k: i64)
        requires
            old(self).wf(),
        ensures
            final(self).wf(),
            final(self).map() == old(self).map().remove(k),
    {
        proof {
            lemma_entries_map(self.entries@, k);
        }
        match self.find(k) {
            None => {
                assert(self.map() =~= self.map().remove(k));
            },
            Some(i) => {
                let ghost s0 = self.entries@;
                let _ = self.entries.remove(i);
                let ghost s1 = self.entries@;
                assert(s1 =~= s0.remove(i as int));
                assert(keys_distinct(s1)) by {
                    assert forall|a: int, b: int| 0 <= a < b < s1.len() implies #[trigger] s1[a].0
                        != #[trigger] s1[b].0 by {
                        let a0 = if a < i { a } else { a + 1 };
                        let b0 = if b < i { b } else { b + 1 };
                        assert(s1[a] == s0[a0]);
                        assert(s1[b] == s0[b0]);
                    }
                }
                assert(entries_map(s1) =~= entries_map(s0).remove(k)) by {
                    assert forall|v: i64| #[trigger] entries_map(s1).dom().contains(v) <==> entries_map(
                        s0,
                    ).remove(k).dom().contains(v) by {
                        lemma_entries_map(s0, v);
                        lemma_entries_map(s1, v);
                        if entries_map(s1).dom().contains(v) {
                            let j = choose|j: int| 0 <= j < s1.len() && s1[j].0 == v;
                            let j0 = if j < i { j } else { j + 1 };
                            assert(s1[j] == s0[j0]);
                        }
                        if entries_map(s0).dom().contains(v) && v != k {
                            let j = choose|j: int| 0 <= j < s0.len() && s0[j].0 == v;
                            if j < i {
                                assert(s1[j] == s0[j]);
                            } else {
                                assert(j != i);
                                assert(s1[j - 1] == s0[j]);
                            }
                        }
                    }
                    assert forall|v: i64| #[trigger] entries_map(s1).dom().contains(v) implies entries_map(
                        s1,
                    )[v] == entries_map(s0).remove(k)[v] by {
                        lemma_entries_map(s0, v);
                        lemma_entries_map(s1, v);
                        let j = choose|j: int| 0 <= j < s1.len() && s1[j].0 == v;
                        let j0 = if j < i { j } else { j + 1 };
                        assert(s1[j] == s0[j0]);
                    }
                }
            },
        }
    }

    /// Holds `v` for `k`, replacing any earlier value.
    pub fn insert(&mut self, k: i64, v: V)
        requires
            old(self).wf(),
        ensures
            final(self).wf(),
            final(self).map() == old(self).map().insert(k, v),
    {
        self.remove(k);
        let ghost s0 = self.entries@;
        proof {
            lemma_entries_map(s0, k);
        }
        self.entries.push((k, v));
        assert(self.entries@.drop_last() =~= s0);
        assert(keys_distinct(self.entries@)) by {
            assert forall|a: int, b: int| 0 <= a < b < self.entries@.len() implies #[trigger] self.entries@[a].0
                != #[trigger] self.entries@[b].0 by {
                assert(self.entries@[a] == s0[a]);
                if b < s0.len() {
                    assert(self.entries@[b] == s0[b]);
                } else {
                    assert(!entries_map(s0).dom().contains(k));
                }
            }
        }
    }
}

} // verus!

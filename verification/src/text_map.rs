//! A map keyed by strings, kept as a list of entries with distinct keys.

use vstd::prelude::*;

verus! {

/// Entries `(key, value)` whose keys are pairwise distinct; seen as a map.
pub struct TextMap<V> {
    entries: Vec<(String, V)>,
}

/// The keys of `entries` are pairwise distinct.
pub open spec fn distinct_keys<V>(entries: Seq<(String, V)>) -> bool {
    forall|i: int, j: int|
        0 <= i < entries.len() && 0 <= j < entries.len() && i != j ==> (#[trigger] entries[i]).0@
            != (#[trigger] entries[j]).0@
}

/// The key `k` stands in `entries`.
pub open spec fn has_key<V>(entries: Seq<(String, V)>, k: Seq<char>) -> bool {
    exists|i: int| 0 <= i < entries.len() && (#[trigger] entries[i]).0@ == k
}

/// The map that `entries` describe.
pub open spec fn entries_map<V>(entries: Seq<(String, V)>) -> Map<Seq<char>, V> {
    Map::new(
        |k: Seq<char>| has_key(entries, k),
        |k: Seq<char>| entries[choose|i: int| 0 <= i < entries.len() && (#[trigger] entries[i]).0@ == k].1,
    )
}

proof fn lemma_entries_map_at<V>(entries: Seq<(String, V)>, i: int)
    requires
        distinct_keys(entries),
        0 <= i < entries.len(),
    ensures
        entries_map(entries).contains_key(entries[i].0@),
        entries_map(entries)[entries[i].0@] == entries[i].1,
{
    let k = entries[i].0@;
    assert(has_key(entries, k));
    let j = choose|j: int| 0 <= j < entries.len() && (#[trigger] entries[j]).0@ == k;
    assert(j == i);
}

impl<V> TextMap<V> {
    #[verifier::type_invariant]
    spec fn well_formed(self) -> bool {
        distinct_keys(self.entries@)
    }

    /// The contents as a map from keys to values.
    pub closed spec fn as_map(self) -> Map<Seq<char>, V> {
        entries_map(self.entries@)
    }

    /// The number of entries.
    pub closed spec fn count(self) -> nat {
        self.entries@.len()
    }

    /// An empty map.
    pub fn new() -> (m: Self)
        ensures
            m.as_map() == Map::<Seq<char>, V>::empty(),
    {
        let m = TextMap { entries: Vec::new() };
        assert(m.as_map() =~= Map::<Seq<char>, V>::empty());
        m
    }

    /// The position of the entry with key `key`.
    fn position(&self, key: &str) -> (r: Option<usize>)
        ensures
            match r {
                Some(i) => i < self.entries@.len() && self.entries@[i as int].0@ == key@,
                None => !has_key(self.entries@, key@),
            },
    {
        let mut i: usize = 0;
        let target = String::from_str(key);
        while i < self.entries.len()
            invariant
                i <= self.entries@.len(),
                target@ == key@,
                forall|j: int| 0 <= j < i ==> (#[trigger] self.entries@[j]).0@ != key@,
            decreases self.entries@.len() - i,
        {
            if self.entries[i].0 == target {
                return Some(i);
            }
            i = i + 1;
        }
        None
    }

    /// Whether `key` has an entry.
    pub fn contains_key(&self, key: &str) -> (r: bool)
        ensures
            r == self.as_map().contains_key(key@),
    {
        self.position(key).is_some()
    }

    /// The value at `key`, if any.
    pub fn get(&self, key: &str) -> (r: Option<&V>)
        ensures
            match r {
                Some(v) => self.as_map().contains_key(key@) && self.as_map()[key@] == *v,
                None => !self.as_map().contains_key(key@),
            },
    {
        proof {
            use_type_invariant(self);
        }
        match self.position(key) {
            Some(i) => {
                proof {
                    lemma_entries_map_at(self.entries@, i as int);
                }
                Some(&self.entries[i].1)
            },
            None => None,
        }
    }

    /// Sets the value at `key` to `value`, replacing any earlier value.
    pub fn insert(&mut self, key: String, value: V)
        ensures
            final(self).as_map() == old(self).as_map().insert(key@, value),
    {
        proof {
            use_type_invariant(&*self);
        }
        let ghost before = self.entries@;
        let ghost k = key@;
        match self.position(key.as_str()) {
            Some(i) => {
                let mut entries: Vec<(String, V)> = Vec::new();
                std::mem::swap(&mut entries, &mut self.entries);
                let _old = entries.remove(i);
                entries.push((key, value));
                let ghost after = entries@;
                proof {
                    assert(after.len() == before.len());
                    assert forall|a: int, b: int|
                        0 <= a < after.len() && 0 <= b < after.len() && a != b implies (#[trigger] after[a]).0@
                        != (#[trigger] after[b]).0@ by {
                        let oa = if a < i { a } else if a < after.len() - 1 { a + 1 } else { i as int };
                        let ob = if b < i { b } else if b < after.len() - 1 { b + 1 } else { i as int };
                        assert(after[a].0@ == before[oa].0@);
                        assert(after[b].0@ == before[ob].0@);
                    }
                    assert forall|kk: Seq<char>| #[trigger] has_key(after, kk) == has_key(before, kk) by {
                        if has_key(before, kk) {
                            let j = choose|j: int| 0 <= j < before.len() && (#[trigger] before[j]).0@ == kk;
                            if j < i {
                                assert(after[j] == before[j]);
                            } else if j == i {
                                assert(after[after.len() - 1].0@ == k);
                            } else {
                                assert(after[j - 1] == before[j]);
                            }
                        }
                        if has_key(after, kk) {
                            let j = choose|j: int| 0 <= j < after.len() && (#[trigger] after[j]).0@ == kk;
                            if j < i {
                                assert(before[j] == after[j]);
                            } else if j < after.len() - 1 {
                                assert(before[j + 1] == after[j]);
                            } else {
                                assert(before[i as int].0@ == k);
                            }
                        }
                    }
                    assert forall|kk: Seq<char>| #[trigger] entries_map(after).contains_key(kk)
                        implies entries_map(after)[kk] == entries_map(before).insert(k, value)[kk] by {
                        let j = choose|j: int| 0 <= j < after.len() && (#[trigger] after[j]).0@ == kk;
                        lemma_entries_map_at(after, j);
                        if kk == k {
                            assert(j == after.len() - 1);
                        } else {
                            let oj = if j < i { j } else { j + 1 };
                            assert(after[j] == before[oj]);
                            lemma_entries_map_at(before, oj);
                        }
                    }
                    assert(entries_map(after) =~= entries_map(before).insert(k, value));
                }
                self.entries = entries;
            },
            None => {
                let mut entries: Vec<(String, V)> = Vec::new();
                std::mem::swap(&mut entries, &mut self.entries);
                entries.push((key, value));
                let ghost after = entries@;
                proof {
                    assert forall|a: int, b: int|
                        0 <= a < after.len() && 0 <= b < after.len() && a != b implies (#[trigger] after[a]).0@
                        != (#[trigger] after[b]).0@ by {
                        if a < before.len() {
                            assert(after[a] == before[a]);
                        }
                        if b < before.len() {
                            assert(after[b] == before[b]);
                        }
                        if a == before.len() {
                            assert(after[a].0@ == k);
                            assert(before[b].0@ != k);
                        }
                        if b == before.len() {
                            assert(after[b].0@ == k);
                            assert(before[a].0@ != k);
                        }
                    }
                    assert forall|kk: Seq<char>| #[trigger] has_key(after, kk) == (has_key(before, kk)
                        || kk == k) by {
                        if has_key(before, kk) {
                            let j = choose|j: int| 0 <= j < before.len() && (#[trigger] before[j]).0@ == kk;
                            assert(after[j] == before[j]);
                        }
                        if kk == k {
                            assert(after[before.len() as int].0@ == k);
                        }
                        if has_key(after, kk) {
                            let j = choose|j: int| 0 <= j < after.len() && (#[trigger] after[j]).0@ == kk;
                            if j < before.len() {
                                assert(before[j] == after[j]);
                            }
                        }
                    }
                    assert forall|kk: Seq<char>| #[trigger] entries_map(after).contains_key(kk)
                        implies entries_map(after)[kk] == entries_map(before).insert(k, value)[kk] by {
                        let j = choose|j: int| 0 <= j < after.len() && (#[trigger] after[j]).0@ == kk;
                        lemma_entries_map_at(after, j);
                        if j < before.len() {
                            assert(after[j] == before[j]);
                            lemma_entries_map_at(before, j);
                        }
                    }
                    assert(entries_map(after) =~= entries_map(before).insert(k, value));
                }
                self.entries = entries;
            },
        }
    }

    /// Removes the entry at `key`, if any.
    pub fn remove(&mut self, key: &str)
        ensures
            final(self).as_map() == old(self).as_map().remove(key@),
    {
        proof {
            use_type_invariant(&*self);
        }
        let ghost before = self.entries@;
        let ghost k = key@;
        match self.position(key) {
            None => {
                assert(entries_map(before) =~= entries_map(before).remove(k));
            },
            Some(i) => {
                let mut entries: Vec<(String, V)> = Vec::new();
                std::mem::swap(&mut entries, &mut self.entries);
                let _old = entries.remove(i);
                let ghost after = entries@;
                proof {
                    assert forall|a: int, b: int|
                        0 <= a < after.len() && 0 <= b < after.len() && a != b implies (#[trigger] after[a]).0@
                        != (#[trigger] after[b]).0@ by {
                        let oa = if a < i { a } else { a + 1 };
                        let ob = if b < i { b } else { b + 1 };
                        assert(after[a] == before[oa]);
                        assert(after[b] == before[ob]);
                    }
                    assert forall|kk: Seq<char>| #[trigger] has_key(after, kk) == (has_key(before, kk)
                        && kk != k) by {
                        if has_key(before, kk) && kk != k {
                            let j = choose|j: int| 0 <= j < before.len() && (#[trigger] before[j]).0@ == kk;
                            if j < i {
                                assert(after[j] == before[j]);
                            } else {
                                assert(j != i);
                                assert(after[j - 1] == before[j]);
                            }
                        }
                        if has_key(after, kk) {
                            let j = choose|j: int| 0 <= j < after.len() && (#[trigger] after[j]).0@ == kk;
                            let oj = if j < i { j } else { j + 1 };
                            assert(before[oj] == after[j]);
                        }
                    }
                    assert forall|kk: Seq<char>| #[trigger] entries_map(after).contains_key(kk)
                        implies entries_map(after)[kk] == entries_map(before).remove(k)[kk] by {
                        let j = choose|j: int| 0 <= j < after.len() && (#[trigger] after[j]).0@ == kk;
                        lemma_entries_map_at(after, j);
                        let oj = if j < i { j } else { j + 1 };
                        assert(after[j] == before[oj]);
                        lemma_entries_map_at(before, oj);
                    }
                    assert(entries_map(after) =~= entries_map(before).remove(k));
                }
                self.entries = entries;
            },
        }
    }
}

} // verus!

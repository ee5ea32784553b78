//! A map keyed by strings, kept as a list of entries with distinct keys.

use vstd::prelude::*;

use crate::text::str_eq;

verus! {

/// A map from strings to values.
pub struct StrMap<V> {
    entries: Vec<(String, V)>,
}

impl<V> StrMap<V> {
    /// Keys are distinct.
    pub closed spec fn wf(&self) -> bool {
        forall|i: int, j: int|
            0 <= i < j < self.entries@.len() ==> #[trigger] self.entries@[i].0@
                != #[trigger] self.entries@[j].0@
    }

    /// The map's content.
    pub closed spec fn map(&self) -> Map<Seq<char>, V> {
        Map::new(
            |k: Seq<char>| exists|i: int| 0 <= i < self.entries@.len() && self.entries@[i].0@ == k,
            |k: Seq<char>|
                self.entries@[choose|i: int|
                    0 <= i < self.entries@.len() && self.entries@[i].0@ == k].1,
        )
    }

    proof fn lemma_value_at(&self, i: int)
        requires
            self.wf(),
            0 <= i < self.entries@.len(),
        ensures
            self.map().contains_key(self.entries@[i].0@),
            self.map()[self.entries@[i].0@] == self.entries@[i].1,
    {
        let k = self.entries@[i].0@;
        assert(self.map().dom().contains(k));
        let j = choose|j: int| 0 <= j < self.entries@.len() && self.entries@[j].0@ == k;
        if j != i {
            if j < i {
                assert(self.entries@[j].0@ != self.entries@[i].0@);
            } else {
                assert(self.entries@[i].0@ != self.entries@[j].0@);
            }
        }
    }

    /// An empty map.
    pub fn new() -> (r: Self)
        ensures
            r.wf(),
            r.map() == Map::<Seq<char>, V>::empty(),
    {
        let r = StrMap { entries: Vec::new() };
        assert(r.map() =~= Map::<Seq<char>, V>::empty());
        r
    }

    fn find(&self, key: &str) -> (r: Option<usize>)
        requires
            self.wf(),
        ensures
            match r {
                Some(i) => i < self.entries@.len() && self.entries@[i as int].0@ == key@,
                None => !self.map().contains_key(key@),
            },
    {
        let mut i: usize = 0;
        while i < self.entries.len()
            invariant
                i <= self.entries.len(),
                forall|j: int| 0 <= j < i ==> self.entries@[j].0@ != key@,
            decreases self.entries.len() - i,
        {
            if str_eq(self.entries[i].0.as_str(), key) {
                return Some(i);
            }
            i = i + 1;
        }
        None
    }

    /// The value of `key`, if any.
    pub fn get(&self, key: &str) -> (r: Option<&V>)
        requires
            self.wf(),
        ensures
            match r {
                Some(v) => self.map().contains_key(key@) && *v == self.map()[key@],
                None => !self.map().contains_key(key@),
            },
    {
        match self.find(key) {
            Some(i) => {
                proof {
                    self.lemma_value_at(i as int);
                }
                Some(&self.entries[i].1)
            },
            None => None,
        }
    }

    /// Sets `key` to `value`.
    pub fn insert(&mut self, key: String, value: V)
        requires
            old(self).wf(),
        ensures
            final(self).wf(),
            final(self).map() == old(self).map().insert(key@, value),
    {
        match self.find(key.as_str()) {
            Some(i) => {
                let ghost before = self.entries@;
                self.entries.set(i, (key, value));
                proof {
                    let after = self.entries@;
                    assert forall|a: int, b: int| 0 <= a < b < after.len() implies #[trigger] after[a].0@
                        != #[trigger] after[b].0@ by {
                        assert(before[a].0@ != before[b].0@);
                    }
                    assert forall|k: Seq<char>| #[trigger] self.map().contains_key(k) <==> old(self).map().insert(key@, value).contains_key(k) by {
                        if old(self).map().contains_key(k) {
                            let j = choose|j: int| 0 <= j < before.len() && before[j].0@ == k;
                            assert(after[j].0@ == k);
                        }
                        if self.map().contains_key(k) {
                            let j = choose|j: int| 0 <= j < after.len() && after[j].0@ == k;
                            assert(before[j].0@ == k);
                        }
                    }
                    assert forall|k: Seq<char>| #[trigger] self.map().contains_key(k) implies self.map()[k] == old(self).map().insert(key@, value)[k] by {
                        let j = choose|j: int| 0 <= j < after.len() && after[j].0@ == k;
                        self.lemma_value_at(j);
                        if j != i {
                            old(self).lemma_value_at(j);
                        }
                    }
                    assert(self.map() =~= old(self).map().insert(key@, value));
                }
            },
            None => {
                let ghost before = self.entries@;
                self.entries.push((key, value));
                proof {
                    let after = self.entries@;
                    assert forall|a: int, b: int| 0 <= a < b < after.len() implies #[trigger] after[a].0@
                        != #[trigger] after[b].0@ by {
                        if b == before.len() {
                            assert(old(self).map().contains_key(before[a].0@));
                        } else {
                            assert(before[a].0@ != before[b].0@);
                        }
                    }
                    assert forall|k: Seq<char>| #[trigger] self.map().contains_key(k) <==> old(self).map().insert(key@, value).contains_key(k) by {
                        if old(self).map().contains_key(k) {
                            let j = choose|j: int| 0 <= j < before.len() && before[j].0@ == k;
                            assert(after[j].0@ == k);
                        }
                        if k == key@ {
                            assert(after[before.len() as int].0@ == k);
                        }
                        if self.map().contains_key(k) {
                            let j = choose|j: int| 0 <= j < after.len() && after[j].0@ == k;
                            if j < before.len() {
                                assert(before[j].0@ == k);
                            }
                        }
                    }
                    assert forall|k: Seq<char>| #[trigger] self.map().contains_key(k) implies self.map()[k] == old(self).map().insert(key@, value)[k] by {
                        let j = choose|j: int| 0 <= j < after.len() && after[j].0@ == k;
                        self.lemma_value_at(j);
                        if j < before.len() {
                            old(self).lemma_value_at(j);
                        }
                    }
                    assert(self.map() =~= old(self).map().insert(key@, value));
                }
            },
        }
    }

    /// Removes `key`.
    pub fn remove(&mut self, key: &str)
        requires
            old(self).wf(),
        ensures
            final(self).wf(),
            final(self).map() == old(self).map().remove(key@),
    {
        match self.find(key) {
            Some(i) => {
                let ghost before = self.entries@;
                let _ = self.entries.remove(i);
                proof {
                    let after = self.entries@;
                    assert(after =~= before.take(i as int) + before.skip(i + 1));
                    assert forall|a: int, b: int| 0 <= a < b < after.len() implies #[trigger] after[a].0@
                        != #[trigger] after[b].0@ by {
                        let a0 = if a < i { a } else { a + 1 };
                        let b0 = if b < i { b } else { b + 1 };
                        assert(after[a] == before[a0]);
                        assert(after[b] == before[b0]);
                        assert(before[a0].0@ != before[b0].0@);
                    }
                    assert forall|k: Seq<char>| #[trigger] self.map().contains_key(k) <==> old(self).map().remove(key@).contains_key(k) by {
                        if self.map().contains_key(k) {
                            let j = choose|j: int| 0 <= j < after.len() && after[j].0@ == k;
                            let j0 = if j < i { j } else { j + 1 };
                            assert(before[j0].0@ == k);
                            assert(before[j0].0@ != before[i as int].0@);
                        }
                        if old(self).map().remove(key@).contains_key(k) {
                            let j = choose|j: int| 0 <= j < before.len() && before[j].0@ == k;
                            assert(j != i);
                            if j < i {
                                assert(after[j].0@ == k);
                            } else {
                                assert(after[j - 1].0@ == k);
                            }
                        }
                    }
                    assert forall|k: Seq<char>| #[trigger] self.map().contains_key(k) implies self.map()[k] == old(self).map().remove(key@)[k] by {
                        let j = choose|j: int| 0 <= j < after.len() && after[j].0@ == k;
                        self.lemma_value_at(j);
                        let j0 = if j < i { j } else { j + 1 };
                        assert(after[j] == before[j0]);
                        old(self).lemma_value_at(j0);
                    }
                    assert(self.map() =~= old(self).map().remove(key@));
                }
            },
            None => {
                assert(self.map() =~= old(self).map().remove(key@));
            },
        }
    }
}

} // verus!

//! A map keyed by file path, standing where the statistics keep a
//! path-keyed hash map.
use vstd::prelude::*;

use crate::text::{chars_eq, str_chars};

verus! {

/// Path-keyed map; each path occurs at most once.
pub struct PathMap<V> {
    entries: Vec<(Vec<char>, V)>,
}

impl<V> PathMap<V> {
    /// Well-formedness: no path occurs twice.
    pub closed spec fn wf(&self) -> bool {
        forall|i: int, j: int|
            0 <= i < self.entries@.len() && 0 <= j < self.entries@.len() && i != j
                ==> self.entries@[i].0@ != self.entries@[j].0@
    }

}

impl<V: Copy> PathMap<V> {
    /// Entry `i` holds path `k`.
    pub closed spec fn holds(&self, i: int, k: Seq<char>) -> bool {
        0 <= i < self.entries@.len() && self.entries@[i].0@ == k
    }

    /// The contents: path to value.
    pub closed spec fn view(&self) -> Map<Seq<char>, V> {
        Map::new(
            |k: Seq<char>| exists|i: int| self.holds(i, k),
            |k: Seq<char>| self.entries@[choose|i: int| self.holds(i, k)].1,
        )
    }

    proof fn lemma_index(&self, i: int)
        requires
            0 <= i < self.entries@.len(),
            self.wf(),
        ensures
            self.view().contains_key(self.entries@[i].0@),
            self.view()[self.entries@[i].0@] == self.entries@[i].1,
    {
        let k = self.entries@[i].0@;
        assert(self.holds(i, k));
        let j = choose|j: int| self.holds(j, k);
        assert(i == j);
    }

    /// An empty map.
    pub fn new() -> (res: Self)
        ensures
            res.wf(),
            res.view() == Map::<Seq<char>, V>::empty(),
    {
        let res = PathMap { entries: Vec::new() };
        assert(res.view() =~= Map::<Seq<char>, V>::empty());
        res
    }

    /// Position of `k`, if present.
    fn position(&self, k: &[char]) -> (res: Option<usize>)
        requires
            self.wf(),
        ensures
            match res {
                Some(i) => self.holds(i as int, k@),
                None => !self.view().contains_key(k@),
            },
    {
        let mut i: usize = 0;
        while i < self.entries.len()
            invariant
                i <= self.entries@.len(),
                forall|j: int| 0 <= j < i ==> !self.holds(j, k@),
            decreases self.entries@.len() - i,
        {
            if chars_eq(self.entries[i].0.as_slice(), k) {
                return Some(i);
            }
            i = i + 1;
        }
        None
    }

    /// The value for `k` (`HashMap::get`).
    pub fn get_chars(&self, k: &[char]) -> (res: Option<V>)
        requires
            self.wf(),
        ensures
            match res {
                Some(v) => self.view().contains_key(k@) && self.view()[k@] == v,
                None => !self.view().contains_key(k@),
            },
    {
        match self.position(k) {
            Some(i) => {
                proof {
                    self.lemma_index(i as int);
                }
                Some(self.entries[i].1)
            },
            None => None,
        }
    }

    /// The value for `k` (`HashMap::get`).
    pub fn get(&self, k: &str) -> (res: Option<V>)
        requires
            self.wf(),
        ensures
            match res {
                Some(v) => self.view().contains_key(k@) && self.view()[k@] == v,
                None => !self.view().contains_key(k@),
            },
    {
        let kc = str_chars(k);
        self.get_chars(kc.as_slice())
    }

    /// Whether `k` is present (`HashMap::contains_key`).
    pub fn contains_key(&self, k: &str) -> (res: bool)
        requires
            self.wf(),
        ensures
            res == self.view().contains_key(k@),
    {
        self.get(k).is_some()
    }

    /// Number of paths held.
    pub fn len(&self) -> (res: usize)
        requires
            self.wf(),
        ensures
            res == self.view().dom().len(),
    {
        proof {
            self.lemma_len();
        }
        self.entries.len()
    }

    proof fn lemma_len(&self)
        requires
            self.wf(),
        ensures
            self.view().dom().finite(),
            self.view().dom().len() == self.entries@.len(),
    {
        let keys = self.entries@.map_values(|e: (Vec<char>, V)| e.0@);
        assert(self.view().dom() =~= keys.to_set()) by {
            assert forall|k: Seq<char>| self.view().dom().contains(k) implies keys.to_set().contains(k) by {
                let i = choose|i: int| self.holds(i, k);
                assert(keys[i] == k);
            }
            assert forall|k: Seq<char>| keys.to_set().contains(k) implies self.view().dom().contains(k) by {
                let i = choose|i: int| 0 <= i < keys.len() && keys[i] == k;
                assert(self.holds(i, k));
            }
        }
        assert(keys.no_duplicates());
        keys.unique_seq_to_set();
    }

    /// Sets `k` to `v` (`HashMap::insert`).
    pub fn insert(&mut self, k: Vec<char>, v: V)
        requires
            old(self).wf(),
        ensures
            final(self).wf(),
            final(self).view() == old(self).view().insert(k@, v),
    {
        let ghost old_map = self.view();
        let ghost kv = k@;
        let ghost before = self.entries@;
        let ghost idx: int;
        match self.position(k.as_slice()) {
            Some(i) => {
                self.entries.set(i, (k, v));
                proof {
                    idx = i as int;
                }
            },
            None => {
                proof {
                    idx = before.len() as int;
                    assert forall|j: int| 0 <= j < before.len() implies before[j].0@ != kv by {
                        if before[j].0@ == kv {
                            assert(old(self).holds(j, kv));
                        }
                    }
                }
                self.entries.push((k, v));
            },
        }
        proof {
            assert(self.entries@.len() >= before.len());
            assert(self.holds(idx, kv));
            assert forall|j: int| 0 <= j < self.entries@.len() && j != idx implies self.entries@[j]
                == before[j] && self.entries@[j].0@ != kv by {
                if self.entries@.len() == before.len() {
                    assert(before[j].0@ != before[idx].0@);
                }
            }
            assert forall|a: int, b: int|
                0 <= a < self.entries@.len() && 0 <= b < self.entries@.len() && a != b
                    implies self.entries@[a].0@ != self.entries@[b].0@ by {
                if a != idx && b != idx {
                    assert(before[a].0@ != before[b].0@);
                }
            }
            assert(self.wf());
            assert forall|key: Seq<char>|
                #![trigger self.view().contains_key(key)]
                self.view().contains_key(key) == old_map.insert(kv, v).contains_key(key) by {
                if key == kv {
                } else if old_map.contains_key(key) {
                    let j = choose|j: int| old(self).holds(j, key);
                    assert(self.holds(j, key));
                } else if self.view().contains_key(key) {
                    let j = choose|j: int| self.holds(j, key);
                    assert(old(self).holds(j, key));
                }
            }
            assert(self.view().dom() =~= old_map.insert(kv, v).dom());
            assert forall|key: Seq<char>| self.view().contains_key(key) implies self.view()[key]
                == old_map.insert(kv, v)[key] by {
                let j = choose|j: int| self.holds(j, key);
                self.lemma_index(j);
                if key != kv {
                    assert(old(self).holds(j, key));
                    old(self).lemma_index(j);
                } else {
                    assert(j == idx);
                }
            }
            assert(self.view() =~= old_map.insert(kv, v));
        }
    }

    /// Removes `k`, returning its value (`HashMap::remove`).
    pub fn remove_chars(&mut self, k: &[char]) -> (res: Option<V>)
        requires
            old(self).wf(),
        ensures
            final(self).wf(),
            final(self).view() == old(self).view().remove(k@),
            match res {
                Some(v) => old(self).view().contains_key(k@) && old(self).view()[k@] == v,
                None => !old(self).view().contains_key(k@),
            },
    {
        let ghost old_map = self.view();
        match self.position(k) {
            Some(i) => {
                proof {
                    self.lemma_index(i as int);
                }
                let ghost before = self.entries@;
                let e = self.entries.remove(i);
                proof {
                    assert forall|a: int, b: int|
                        0 <= a < self.entries@.len() && 0 <= b < self.entries@.len() && a != b
                            implies self.entries@[a].0@ != self.entries@[b].0@ by {
                        let a2 = if a < i { a } else { a + 1 };
                        let b2 = if b < i { b } else { b + 1 };
                        assert(before[a2].0@ != before[b2].0@);
                    }
                }
                proof {
                            assert forall|key: Seq<char>|
                        #![trigger self.view().contains_key(key)]
                        self.view().contains_key(key) == old_map.remove(k@).contains_key(key) by {
                        if self.view().contains_key(key) {
                            let j = choose|j: int| self.holds(j, key);
                            let j2 = if j < i { j } else { j + 1 };
                            assert(old(self).holds(j2, key));
                        } else if old_map.remove(k@).contains_key(key) {
                            let j = choose|j: int| old(self).holds(j, key);
                            assert(j != i);
                            let j2 = if j < i { j } else { j - 1 };
                            assert(self.holds(j2, key));
                        }
                    }
                    assert(self.view().dom() =~= old_map.remove(k@).dom());
                    assert forall|key: Seq<char>| self.view().contains_key(key) implies self.view()[key]
                        == old_map.remove(k@)[key] by {
                        let j = choose|j: int| self.holds(j, key);
                        self.lemma_index(j);
                        let j2 = if j < i { j } else { j + 1 };
                        assert(old(self).holds(j2, key));
                        old(self).lemma_index(j2);
                    }
                    assert(self.view() =~= old_map.remove(k@));
                }
                Some(e.1)
            },
            None => {
                assert(old_map.remove(k@) =~= old_map);
                None
            },
        }
    }
}

} // verus!

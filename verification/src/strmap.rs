//! A small map keyed by strings, kept as two parallel vectors with unique keys.

use vstd::prelude::*;
use crate::text::str_eq;

verus! {

pub struct StrMap<V> {
    keys: Vec<String>,
    vals: Vec<V>,
}

/// Index of a key in a key sequence with unique entries.
pub open spec fn key_at(keys: Seq<String>, k: Seq<char>, i: int) -> bool {
    0 <= i < keys.len() && keys[i]@ == k
}

impl<V> StrMap<V> {
    pub closed spec fn wf(&self) -> bool {
        &&& self.keys.len() == self.vals.len()
        &&& forall|i: int, j: int|
            0 <= i < self.keys.len() && 0 <= j < self.keys.len() && i != j ==> #[trigger] self.keys@[i]@
                != #[trigger] self.keys@[j]@
    }

    /// The keys in insertion order.
    pub closed spec fn key_seq(&self) -> Seq<Seq<char>> {
        self.keys@.map_values(|k: String| k@)
    }

    pub closed spec fn map(&self) -> Map<Seq<char>, V> {
        Map::new(
            |k: Seq<char>| exists|i: int| key_at(self.keys@, k, i),
            |k: Seq<char>| self.vals@[choose|i: int| key_at(self.keys@, k, i)],
        )
    }

    proof fn lemma_value_at(&self, i: int)
        requires
            self.wf(),
            0 <= i < self.keys.len(),
        ensures
            self.map().dom().contains(self.keys@[i]@),
            self.map()[self.keys@[i]@] == self.vals@[i],
    {
        let k = self.keys@[i]@;
        assert(key_at(self.keys@, k, i));
        let j = choose|j: int| key_at(self.keys@, k, j);
        assert(key_at(self.keys@, k, j));
        if j != i {
            assert(self.keys@[i]@ != self.keys@[j]@);
        }
    }

    proof fn lemma_dom_finite(&self)
        requires
            self.wf(),
        ensures
            self.map().dom().finite(),
            self.map().dom() == self.key_seq().to_set(),
    {
        assert forall|k: Seq<char>| self.map().dom().contains(k) <==> self.key_seq().to_set().contains(k) by {
            if self.map().dom().contains(k) {
                let i = choose|i: int| key_at(self.keys@, k, i);
                assert(self.key_seq()[i] == k);
            }
            if self.key_seq().to_set().contains(k) {
                let i = choose|i: int| 0 <= i < self.key_seq().len() && self.key_seq()[i] == k;
                assert(key_at(self.keys@, k, i));
            }
        }
        assert(self.map().dom() =~= self.key_seq().to_set());
        vstd::seq_lib::seq_to_set_is_finite(self.key_seq());
    }

    pub fn new() -> (m: Self)
        ensures
            m.wf(),
            m.map() == Map::<Seq<char>, V>::empty(),
            m.key_seq() == Seq::<Seq<char>>::empty(),
    {
        let m = StrMap { keys: Vec::new(), vals: Vec::new() };
        assert(m.map() =~= Map::<Seq<char>, V>::empty());
        assert(m.key_seq() =~= Seq::<Seq<char>>::empty());
        m
    }

    pub fn len(&self) -> (n: usize)
        requires
            self.wf(),
        ensures
            n == self.map().dom().len(),
            n == self.key_seq().len(),
    {
        proof {
            self.lemma_dom_finite();
            assert forall|i: int, j: int| 0 <= i < self.key_seq().len() && 0 <= j < self.key_seq().len() && i != j implies
                self.key_seq()[i] != self.key_seq()[j] by {
                assert(self.keys@[i]@ != self.keys@[j]@);
            }
            assert(self.key_seq().no_duplicates());
            self.key_seq().unique_seq_to_set();
        }
        self.keys.len()
    }

    /// The keys in insertion order are exactly the map's keys, each once.
    pub proof fn lemma_keys(&self)
        requires
            self.wf(),
        ensures
            self.map().dom().finite(),
            self.map().dom() == self.key_seq().to_set(),
            self.key_seq().no_duplicates(),
    {
        self.lemma_dom_finite();
        assert forall|i: int, j: int| 0 <= i < self.key_seq().len() && 0 <= j < self.key_seq().len() && i != j implies
            self.key_seq()[i] != self.key_seq()[j] by {
            assert(self.keys@[i]@ != self.keys@[j]@);
        }
    }

    /// The `i`-th key in insertion order and its value.
    pub fn entry(&self, i: usize) -> (r: (&String, &V))
        requires
            self.wf(),
            i < self.key_seq().len(),
        ensures
            r.0@ == self.key_seq()[i as int],
            self.map().dom().contains(r.0@),
            *r.1 == self.map()[r.0@],
    {
        proof {
            self.lemma_value_at(i as int);
        }
        (&self.keys[i], &self.vals[i])
    }

    /// Position of `key`, if present.
    fn find(&self, key: &str) -> (r: Option<usize>)
        requires
            self.wf(),
        ensures
            r matches Some(i) ==> i < self.keys.len() && self.keys@[i as int]@ == key@,
            r is None ==> !self.map().dom().contains(key@),
    {
        let n = self.keys.len();
        let mut i: usize = 0;
        while i < n
            invariant
                self.wf(),
                n == self.keys.len(),
                0 <= i <= n,
                forall|j: int| 0 <= j < i ==> self.keys@[j]@ != key@,
            decreases n - i,
        {
            if str_eq(self.keys[i].as_str(), key) {
                return Some(i);
            }
            i = i + 1;
        }
        None
    }

    pub fn contains_key(&self, key: &str) -> (b: bool)
        requires
            self.wf(),
        ensures
            b == self.map().dom().contains(key@),
    {
        match self.find(key) {
            Some(i) => {
                proof {
                    self.lemma_value_at(i as int);
                }
                true
            },
            None => false,
        }
    }

    pub fn get(&self, key: &str) -> (r: Option<&V>)
        requires
            self.wf(),
        ensures
            r matches Some(v) ==> self.map().dom().contains(key@) && *v == self.map()[key@],
            r is None ==> !self.map().dom().contains(key@),
    {
        match self.find(key) {
            Some(i) => {
                proof {
                    self.lemma_value_at(i as int);
                }
                Some(&self.vals[i])
            },
            None => None,
        }
    }

    /// Sets the value of `key`, adding the key when it is new.
    pub fn insert(&mut self, key: String, v: V)
        requires
            old(self).wf(),
        ensures
            final(self).wf(),
            final(self).map() == old(self).map().insert(key@, v),
    {
        match self.find(key.as_str()) {
            Some(i) => {
                let ghost old_keys = self.keys@;
                let ghost old_vals = self.vals@;
                let ghost old_map = self.map();
                self.vals.set(i, v);
                proof {
                    assert(self.keys@ == old_keys);
                    assert forall|k: Seq<char>| #![auto]
                        self.map().dom().contains(k) == old_map.insert(key@, v).dom().contains(k) by {
                        if k == key@ {
                            assert(key_at(self.keys@, k, i as int));
                            assert(key_at(old_keys, k, i as int));
                        }
                    }
                    assert forall|k: Seq<char>| #![auto] self.map().dom().contains(k) implies self.map()[k]
                        == old_map.insert(key@, v)[k] by {
                        let j = choose|j: int| key_at(self.keys@, k, j);
                        assert(key_at(self.keys@, k, j));
                        self.lemma_value_at(j);
                        if j == i {
                        } else {
                            assert(self.keys@[j]@ != self.keys@[i as int]@);
                            let jj = choose|jj: int| key_at(old_keys, k, jj);
                            assert(key_at(old_keys, k, jj));
                            if jj != j {
                                assert(old_keys[jj]@ != old_keys[j]@);
                            }
                        }
                    }
                    assert(self.map() =~= old_map.insert(key@, v));
                }
            },
            None => {
                let ghost old_keys = self.keys@;
                let ghost old_vals = self.vals@;
                let ghost old_map = self.map();
                let ghost kv = key@;
                self.keys.push(key);
                self.vals.push(v);
                proof {
                    let n = old_keys.len() as int;
                    assert(self.keys@[n]@ == kv);
                    assert forall|a: int, b: int|
                        0 <= a < self.keys.len() && 0 <= b < self.keys.len() && a != b implies #[trigger] self.keys@[a]@
                            != #[trigger] self.keys@[b]@ by {
                        if a == n {
                            assert(!key_at(old_keys, kv, b));
                        } else if b == n {
                            assert(!key_at(old_keys, kv, a));
                        } else {
                            assert(old_keys[a]@ != old_keys[b]@);
                        }
                    }
                    assert forall|k: Seq<char>| #![auto]
                        self.map().dom().contains(k) == old_map.insert(kv, v).dom().contains(k) by {
                        if k == kv {
                            assert(key_at(self.keys@, k, n));
                        } else if old_map.dom().contains(k) {
                            let j = choose|j: int| key_at(old_keys, k, j);
                            assert(key_at(self.keys@, k, j));
                        } else if self.map().dom().contains(k) {
                            let j = choose|j: int| key_at(self.keys@, k, j);
                            assert(key_at(old_keys, k, j));
                        }
                    }
                    assert forall|k: Seq<char>| #![auto] self.map().dom().contains(k) implies self.map()[k]
                        == old_map.insert(kv, v)[k] by {
                        let j = choose|j: int| key_at(self.keys@, k, j);
                        assert(key_at(self.keys@, k, j));
                        self.lemma_value_at(j);
                        if j < n {
                            let jj = choose|jj: int| key_at(old_keys, k, jj);
                            assert(key_at(old_keys, k, jj));
                            if jj != j {
                                assert(self.keys@[jj]@ != self.keys@[j]@);
                            }
                        }
                    }
                    assert(self.map() =~= old_map.insert(kv, v));
                }
            },
        }
    }
}

} // verus!

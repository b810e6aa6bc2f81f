use vstd::prelude::*;
use crate::util::chars::{chars_of, chars_eq};

verus! {

/// A map from string keys to string values that remembers the order in which
/// keys were first inserted.
pub struct Properties {
    keys: Vec<String>,
    values: Vec<String>,
}

impl Properties {
    /// The keys in the order in which they were first inserted.
    pub closed spec fn key_seq(&self) -> Seq<Seq<char>> {
        Seq::new(self.keys@.len(), |i: int| self.keys@[i]@)
    }

    /// The values, in the order of `key_seq`.
    pub closed spec fn value_seq(&self) -> Seq<Seq<char>> {
        Seq::new(self.values@.len(), |i: int| self.values@[i]@)
    }

    /// Keys and values line up and no key occurs twice.
    pub closed spec fn wf(&self) -> bool {
        &&& self.keys@.len() == self.values@.len()
        &&& forall|i: int, j: int|
            0 <= i < j < self.keys@.len() ==> #[trigger] self.keys@[i]@ != #[trigger] self.keys@[j]@
    }

    /// The key-value map.
    pub closed spec fn map(&self) -> Map<Seq<char>, Seq<char>> {
        Map::new(
            |k: Seq<char>| exists|i: int| 0 <= i < self.keys@.len() && self.keys@[i]@ == k,
            |k: Seq<char>|
                self.values@[choose|i: int| 0 <= i < self.keys@.len() && self.keys@[i]@ == k]@,
        )
    }

    /// Facts that follow from `wf`: the map holds exactly the listed keys, each
    /// with the value at its index, and there are as many keys as values.
    pub proof fn lemma_wf(&self)
        requires
            self.wf(),
        ensures
            self.key_seq().len() == self.value_seq().len(),
            self.map().dom().finite(),
            forall|k: Seq<char>| self.map().contains_key(k) <==> self.key_seq().contains(k),
            forall|i: int|
                0 <= i < self.key_seq().len() ==> #[trigger] self.map()[self.key_seq()[i]]
                    == self.value_seq()[i],
            forall|i: int, j: int|
                0 <= i < j < self.key_seq().len() ==> #[trigger] self.key_seq()[i]
                    != #[trigger] self.key_seq()[j],
    {
        assert forall|k: Seq<char>| self.map().contains_key(k) <==> self.key_seq().contains(k) by {
            if self.map().contains_key(k) {
                let i = choose|i: int| 0 <= i < self.keys@.len() && self.keys@[i]@ == k;
                assert(self.key_seq()[i] == k);
            }
            if self.key_seq().contains(k) {
                let i = choose|i: int| 0 <= i < self.key_seq().len() && self.key_seq()[i] == k;
                assert(self.keys@[i]@ == k);
            }
        }
        assert forall|i: int| 0 <= i < self.key_seq().len() implies #[trigger] self.map()[self.key_seq()[i]]
            == self.value_seq()[i] by {
            self.lemma_value_at(i);
        }
        assert(self.map().dom() =~= self.key_seq().to_set());
    }

    proof fn lemma_value_at(&self, i: int)
        requires
            self.wf(),
            0 <= i < self.keys@.len(),
        ensures
            self.map().contains_key(self.keys@[i]@),
            self.map()[self.keys@[i]@] == self.values@[i]@,
    {
        let k = self.keys@[i]@;
        assert(self.map().contains_key(k));
        let j = choose|j: int| 0 <= j < self.keys@.len() && self.keys@[j]@ == k;
        if j < i {
        } else if j > i {
        }
    }

    /// An empty map.
    pub fn new() -> (p: Properties)
        ensures
            p.wf(),
            p.map() == Map::<Seq<char>, Seq<char>>::empty(),
            p.key_seq() == Seq::<Seq<char>>::empty(),
    {
        let p = Properties { keys: Vec::new(), values: Vec::new() };
        proof {
            assert(p.map() =~= Map::<Seq<char>, Seq<char>>::empty());
            assert(p.key_seq() =~= Seq::<Seq<char>>::empty());
        }
        p
    }

    /// The number of keys.
    pub fn len(&self) -> (n: usize)
        requires
            self.wf(),
        ensures
            n == self.key_seq().len(),
    {
        self.keys.len()
    }

    /// Whether there is no key.
    pub fn is_empty(&self) -> (r: bool)
        requires
            self.wf(),
        ensures
            r == (self.key_seq().len() == 0),
            r == self.map().is_empty(),
    {
        proof {
            self.lemma_wf();
            if self.key_seq().len() > 0 {
                assert(self.map().contains_key(self.key_seq()[0]));
            } else {
                assert(self.map() =~= Map::<Seq<char>, Seq<char>>::empty());
            }
        }
        self.keys.len() == 0
    }

    /// The key at index `i` of `key_seq`.
    pub fn key_at(&self, i: usize) -> (k: &String)
        requires
            self.wf(),
            i < self.key_seq().len(),
        ensures
            k@ == self.key_seq()[i as int],
    {
        &self.keys[i]
    }

    /// The value at index `i` of `value_seq`: the value of the key at index `i`.
    pub fn value_at(&self, i: usize) -> (v: &String)
        requires
            self.wf(),
            i < self.key_seq().len(),
        ensures
            v@ == self.value_seq()[i as int],
    {
        &self.values[i]
    }

    /// The index in `key_seq` of `key`, if present.
    pub fn index_of(&self, key: &str) -> (r: Option<usize>)
        requires
            self.wf(),
        ensures
            match r {
                Some(i) => i < self.key_seq().len() && self.key_seq()[i as int] == key@,
                None => !self.key_seq().contains(key@),
            },
    {
        let kc = chars_of(key);
        let mut i: usize = 0;
        while i < self.keys.len()
            invariant
                self.wf(),
                kc@ == key@,
                i <= self.keys@.len(),
                forall|j: int| 0 <= j < i ==> self.keys@[j]@ != key@,
            decreases self.keys@.len() - i,
        {
            let c = chars_of(self.keys[i].as_str());
            if chars_eq(c.as_slice(), kc.as_slice()) {
                return Some(i);
            }
            i = i + 1;
        }
        proof {
            if self.key_seq().contains(key@) {
                let j = choose|j: int| 0 <= j < self.key_seq().len() && self.key_seq()[j] == key@;
                assert(self.keys@[j]@ == key@);
            }
        }
        None
    }

    /// Whether `key` is present.
    pub fn contains_key(&self, key: &str) -> (r: bool)
        requires
            self.wf(),
        ensures
            r == self.map().contains_key(key@),
    {
        proof {
            self.lemma_wf();
        }
        self.index_of(key).is_some()
    }

    /// A copy of the value of `key`, if present.
    pub fn get(&self, key: &str) -> (r: Option<String>)
        requires
            self.wf(),
        ensures
            match r {
                Some(v) => self.map().contains_key(key@) && v@ == self.map()[key@],
                None => !self.map().contains_key(key@),
            },
    {
        proof {
            self.lemma_wf();
        }
        match self.index_of(key) {
            Some(i) => {
                proof {
                    self.lemma_value_at(i as int);
                }
                Some(self.values[i].clone())
            },
            None => None,
        }
    }

    /// Sets the value of `key`; a new key goes to the end of `key_seq`.
    pub fn insert(&mut self, key: String, value: String)
        requires
            old(self).wf(),
        ensures
            final(self).wf(),
            final(self).map() == old(self).map().insert(key@, value@),
            old(self).key_seq().contains(key@) ==> final(self).key_seq() == old(self).key_seq(),
            !old(self).key_seq().contains(key@) ==> final(self).key_seq() == old(self).key_seq().push(
                key@,
            ),
    {
        proof {
            old(self).lemma_wf();
        }
        let ghost kv = key@;
        let ghost vv = value@;
        match self.index_of(key.as_str()) {
            Some(i) => {
                self.values.set(i, value);
                proof {
                    assert(self.key_seq() =~= old(self).key_seq());
                }
            },
            None => {
                self.keys.push(key);
                self.values.push(value);
                proof {
                    assert(self.key_seq() =~= old(self).key_seq().push(kv));
                    assert forall|i: int, j: int|
                        0 <= i < j < self.keys@.len() implies #[trigger] self.keys@[i]@
                        != #[trigger] self.keys@[j]@ by {
                        if j == self.keys@.len() - 1 {
                            assert(old(self).key_seq()[i] == self.keys@[i]@);
                        }
                    }
                }
            },
        }
        proof {
            let target = old(self).map().insert(kv, vv);
            assert forall|k: Seq<char>| #[trigger] target.dom().contains(k) <==> self.map().dom().contains(
                k,
            ) by {
                self.lemma_insert_key(old(self), kv, vv, k);
            }
            assert forall|k: Seq<char>| #[trigger] self.map().dom().contains(k) implies self.map()[k]
                == target[k] by {
                self.lemma_insert_key(old(self), kv, vv, k);
            }
            assert(self.map() =~= target);
        }
    }

    proof fn lemma_insert_key(&self, prev: &Properties, kv: Seq<char>, vv: Seq<char>, k: Seq<char>)
        requires
            prev.wf(),
            self.wf(),
            prev.key_seq().contains(kv) ==> self.keys@.len() == prev.keys@.len() && (forall|j: int|
                0 <= j < prev.keys@.len() ==> self.keys@[j]@ == prev.keys@[j]@ && (self.keys@[j]@ != kv
                    ==> self.values@[j]@ == prev.values@[j]@) && (self.keys@[j]@ == kv
                    ==> self.values@[j]@ == vv)),
            !prev.key_seq().contains(kv) ==> self.keys@.len() == prev.keys@.len() + 1 && (forall|j: int|
                0 <= j < prev.keys@.len() ==> self.keys@[j]@ == prev.keys@[j]@ && self.values@[j]@
                    == prev.values@[j]@) && self.keys@[prev.keys@.len() as int]@ == kv
                && self.values@[prev.keys@.len() as int]@ == vv,
        ensures
            self.map().contains_key(k) == prev.map().insert(kv, vv).contains_key(k),
            self.map().contains_key(k) ==> self.map()[k] == prev.map().insert(kv, vv)[k],
    {
        prev.lemma_wf();
        if self.map().contains_key(k) {
            let j = choose|j: int| 0 <= j < self.keys@.len() && self.keys@[j]@ == k;
            self.lemma_value_at(j);
            if j < prev.keys@.len() {
                prev.lemma_value_at(j);
                assert(prev.key_seq()[j] == prev.keys@[j]@);
            }
        }
        if prev.map().contains_key(k) {
            let j = choose|j: int| 0 <= j < prev.keys@.len() && prev.keys@[j]@ == k;
            assert(self.keys@[j]@ == k);
        }
        if k == kv {
            if prev.key_seq().contains(kv) {
                let j = choose|j: int| 0 <= j < prev.key_seq().len() && prev.key_seq()[j] == kv;
                assert(self.keys@[j]@ == k);
            } else {
                assert(self.keys@[prev.keys@.len() as int]@ == k);
            }
        }
    }

    /// Removes `key` and gives back its value, if it was present.
    pub fn remove(&mut self, key: &str) -> (r: Option<String>)
        requires
            old(self).wf(),
        ensures
            final(self).wf(),
            final(self).map() == old(self).map().remove(key@),
            match r {
                Some(v) => old(self).map().contains_key(key@) && v@ == old(self).map()[key@],
                None => !old(self).map().contains_key(key@),
            },
    {
        proof {
            old(self).lemma_wf();
        }
        match self.index_of(key) {
            Some(i) => {
                proof {
                    old(self).lemma_value_at(i as int);
                }
                self.keys.remove(i);
                let v = self.values.remove(i);
                proof {
                    assert forall|a: int, b: int|
                        0 <= a < b < self.keys@.len() implies #[trigger] self.keys@[a]@
                        != #[trigger] self.keys@[b]@ by {
                        let oa = if a < i { a } else { a + 1 };
                        let ob = if b < i { b } else { b + 1 };
                        assert(self.keys@[a] == old(self).keys@[oa]);
                        assert(self.keys@[b] == old(self).keys@[ob]);
                    }
                    let target = old(self).map().remove(key@);
                    assert forall|k: Seq<char>| #[trigger] target.dom().contains(k) <==> self.map().dom().contains(
                        k,
                    ) by {
                        self.lemma_remove_key(old(self), i as int, key@, k);
                    }
                    assert forall|k: Seq<char>| #[trigger] self.map().dom().contains(k) implies self.map()[k]
                        == target[k] by {
                        self.lemma_remove_key(old(self), i as int, key@, k);
                    }
                    assert(self.map() =~= target);
                }
                Some(v)
            },
            None => {
                proof {
                    assert(self.map() =~= old(self).map().remove(key@));
                }
                None
            },
        }
    }

    proof fn lemma_remove_key(&self, prev: &Properties, i: int, kv: Seq<char>, k: Seq<char>)
        requires
            prev.wf(),
            self.wf(),
            0 <= i < prev.keys@.len(),
            prev.keys@[i]@ == kv,
            self.keys@ == prev.keys@.remove(i),
            self.values@ == prev.values@.remove(i),
        ensures
            self.map().contains_key(k) == prev.map().remove(kv).contains_key(k),
            self.map().contains_key(k) ==> self.map()[k] == prev.map().remove(kv)[k],
    {
        if self.map().contains_key(k) {
            let j = choose|j: int| 0 <= j < self.keys@.len() && self.keys@[j]@ == k;
            self.lemma_value_at(j);
            let oj = if j < i { j } else { j + 1 };
            assert(self.keys@[j] == prev.keys@[oj]);
            assert(self.values@[j] == prev.values@[oj]);
            prev.lemma_value_at(oj);
            assert(k != kv);
        }
        if prev.map().contains_key(k) && k != kv {
            let j = choose|j: int| 0 <= j < prev.keys@.len() && prev.keys@[j]@ == k;
            assert(j != i);
            let nj = if j < i { j } else { j - 1 };
            assert(self.keys@[nj] == prev.keys@[j]);
        }
    }
}


/// After `insert(k, v)`, `get(k)` gives `v`.
pub proof fn law_insert_then_get(before: Map<Seq<char>, Seq<char>>, after: Map<Seq<char>, Seq<char>>, k: Seq<char>, v: Seq<char>)
    requires
        after == before.insert(k, v),
    ensures
        after.contains_key(k),
        after[k] == v,
{
}

/// After `remove(k)`, `k` is missing and every other key keeps its value.
pub proof fn law_remove_then_get(before: Map<Seq<char>, Seq<char>>, after: Map<Seq<char>, Seq<char>>, k: Seq<char>)
    requires
        after == before.remove(k),
    ensures
        !after.contains_key(k),
        forall|j: Seq<char>| j != k ==> (after.contains_key(j) == before.contains_key(j) && (after.contains_key(j)
            ==> after[j] == before[j])),
{
}

} // verus!

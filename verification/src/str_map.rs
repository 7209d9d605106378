//! A map from string keys to values, kept as two lists.
use vstd::prelude::*;

verus! {

/// A map from string keys to values of type `V`.
#[derive(Debug)]
pub struct StrMap<V> {
    keys: Vec<String>,
    values: Vec<V>,
}

/// No two keys of `ks` are equal.
pub open spec fn keys_unique(ks: Seq<String>) -> bool {
    forall|i: int, j: int| 0 <= i < ks.len() && 0 <= j < ks.len() && i != j ==> ks[i]@ != ks[j]@
}

pub open spec fn has_key_at(ks: Seq<String>, k: Seq<char>, i: int) -> bool {
    0 <= i < ks.len() && ks[i]@ == k
}

/// The map whose entries are the pairs `(ks[i], vs[i])`.
pub open spec fn entries_view<V>(ks: Seq<String>, vs: Seq<V>) -> Map<Seq<char>, V> {
    Map::new(
        |k: Seq<char>| exists|i: int| has_key_at(ks, k, i),
        |k: Seq<char>| vs[choose|i: int| has_key_at(ks, k, i)],
    )
}

/// `r` lists the keys of `m`, each once.
pub open spec fn lists_keys<V>(r: Seq<String>, m: Map<Seq<char>, V>) -> bool {
    &&& keys_unique(r)
    &&& forall|i: int| 0 <= i < r.len() ==> m.contains_key(#[trigger] r[i]@)
    &&& forall|k: Seq<char>| m.contains_key(k) ==> exists|i: int| 0 <= i < r.len() && #[trigger] r[i]@ == k
}

proof fn lemma_view_at<V>(ks: Seq<String>, vs: Seq<V>, i: int)
    requires
        keys_unique(ks),
        ks.len() == vs.len(),
        0 <= i < ks.len(),
    ensures
        entries_view(ks, vs).contains_key(ks[i]@),
        entries_view(ks, vs)[ks[i]@] == vs[i],
{
    assert(has_key_at(ks, ks[i]@, i));
    let j = choose|j: int| has_key_at(ks, ks[i]@, j);
    assert(j == i);
}

impl<V> View for StrMap<V> {
    type V = Map<Seq<char>, V>;

    closed spec fn view(&self) -> Map<Seq<char>, V> {
        entries_view(self.keys@, self.values@)
    }
}

impl<V> StrMap<V> {
    #[verifier::type_invariant]
    spec fn well_formed(self) -> bool {
        &&& keys_unique(self.keys@)
        &&& self.keys@.len() == self.values@.len()
    }

    /// An empty map.
    pub fn new() -> (m: Self)
        ensures
            m@ == Map::<Seq<char>, V>::empty(),
    {
        let m = StrMap { keys: Vec::new(), values: Vec::new() };
        assert(m@ =~= Map::<Seq<char>, V>::empty());
        m
    }

    fn find(&self, key: &String) -> (r: Option<usize>)
        ensures
            match r {
                Some(i) => has_key_at(self.keys@, key@, i as int),
                None => forall|i: int| !has_key_at(self.keys@, key@, i),
            },
    {
        let mut i: usize = 0;
        while i < self.keys.len()
            invariant
                i <= self.keys@.len(),
                forall|j: int| 0 <= j < i ==> !has_key_at(self.keys@, key@, j),
            decreases self.keys@.len() - i,
        {
            if self.keys[i] == *key {
                return Some(i);
            }
            i = i + 1;
        }
        None
    }

    /// Stores `value` under `k`, in place of what `k` held before.
    pub fn insert(&mut self, k: String, value: V)
        ensures
            final(self)@ == old(self)@.insert(k@, value),
    {
        proof {
            use_type_invariant(&*self);
        }
        let ghost ks = self.keys@;
        let ghost vs = self.values@;
        let ghost v = value;
        match self.find(&k) {
            Some(i) => {
                self.values[i] = value;
                proof {
                    let vs2 = self.values@;
                    lemma_view_at(ks, vs2, i as int);
                    assert forall|key: Seq<char>| #[trigger]
                        entries_view(ks, vs).contains_key(key) && key != k@ implies entries_view(
                        ks,
                        vs2,
                    )[key] == entries_view(ks, vs)[key] by {
                        let j = choose|j: int| has_key_at(ks, key, j);
                        lemma_view_at(ks, vs, j);
                        lemma_view_at(ks, vs2, j);
                    }
                    assert(self@ =~= old(self)@.insert(k@, v));
                }
            },
            None => {
                let ghost kv = k@;
                let mut taken = StrMap::new();
                std::mem::swap(&mut taken, self);
                let StrMap { keys: mut keys, values: mut values } = taken;
                keys.push(k);
                values.push(value);
                proof {
                    assert(keys@ == ks.push(k));
                    assert forall|a: int, b: int|
                        0 <= a < keys@.len() && 0 <= b < keys@.len() && a != b implies keys@[a]@
                        != keys@[b]@ by {
                        if a < ks.len() && b < ks.len() {
                        } else if a < ks.len() {
                            assert(!has_key_at(ks, kv, a));
                        } else {
                            assert(!has_key_at(ks, kv, b));
                        }
                    }
                }
                *self = StrMap { keys, values };
                proof {
                    let ks2 = self.keys@;
                    let vs2 = self.values@;
                    assert(keys_unique(ks2));
                    lemma_view_at(ks2, vs2, ks.len() as int);
                    assert forall|key: Seq<char>| #[trigger]
                        entries_view(ks, vs).contains_key(key) implies entries_view(
                        ks2,
                        vs2,
                    ).contains_key(key) && entries_view(ks2, vs2)[key] == entries_view(ks, vs)[key] by {
                        let j = choose|j: int| has_key_at(ks, key, j);
                        lemma_view_at(ks, vs, j);
                        lemma_view_at(ks2, vs2, j);
                    }
                    assert forall|key: Seq<char>| #[trigger]
                        entries_view(ks2, vs2).contains_key(key) && key != kv implies entries_view(
                        ks,
                        vs,
                    ).contains_key(key) by {
                        let j = choose|j: int| has_key_at(ks2, key, j);
                        assert(has_key_at(ks, key, j));
                    }
                    assert(self@ =~= old(self)@.insert(kv, v));
                }
            },
        }
    }

    /// The value stored under `key`, if there is one.
    pub fn get(&self, key: &String) -> (r: Option<&V>)
        ensures
            match r {
                Some(x) => self@.contains_key(key@) && self@[key@] == *x,
                None => !self@.contains_key(key@),
            },
    {
        proof {
            use_type_invariant(self);
        }
        match self.find(key) {
            None => None,
            Some(i) => {
                proof {
                    lemma_view_at(self.keys@, self.values@, i as int);
                }
                Some(&self.values[i])
            },
        }
    }

    /// A mutable reference to the value stored under `key`, if there is one;
    /// what is written through it is what `key` holds after.
    pub fn get_mut(&mut self, key: &String) -> (r: Option<&mut V>)
        ensures
            match r {
                Some(x) => old(self)@.contains_key(key@) && old(self)@[key@] == *x && final(self)@
                    == old(self)@.insert(key@, *final(x)),
                None => !old(self)@.contains_key(key@) && final(self)@ == old(self)@,
            },
    {
        proof {
            use_type_invariant(&*self);
        }
        match self.find(key) {
            None => None,
            Some(i) => {
                proof {
                    lemma_view_at(self.keys@, self.values@, i as int);
                }
                let slot = &mut self.values[i];
                Some(slot)
            },
        }
    }

    /// The keys of the map, each once, in no promised order.
    pub fn keys(&self) -> (r: Vec<String>)
        ensures
            lists_keys(r@, self@),
    {
        proof {
            use_type_invariant(self);
        }
        let mut r: Vec<String> = Vec::new();
        let mut i: usize = 0;
        while i < self.keys.len()
            invariant
                i <= self.keys@.len(),
                r@.len() == i,
                forall|j: int| 0 <= j < i ==> #[trigger] r@[j]@ == self.keys@[j]@,
                keys_unique(self.keys@),
                self.keys@.len() == self.values@.len(),
            decreases self.keys@.len() - i,
        {
            r.push(self.keys[i].clone());
            i = i + 1;
        }
        proof {
            assert forall|a: int| 0 <= a < r@.len() implies self@.contains_key(#[trigger] r@[a]@) by {
                lemma_view_at(self.keys@, self.values@, a);
            }
            assert forall|k: Seq<char>| self@.contains_key(k) implies exists|a: int|
                0 <= a < r@.len() && #[trigger] r@[a]@ == k by {
                let j = choose|j: int| has_key_at(self.keys@, k, j);
                assert(r@[j]@ == k);
            }
        }
        r
    }
}

} // verus!

//! A cache of calculated values as text, by type, date and key.
use vstd::prelude::*;

use crate::str_map::{lists_keys, StrMap};

verus! {

/// The texts of a map of strings.
pub open spec fn texts(m: Map<Seq<char>, String>) -> Map<Seq<char>, Seq<char>> {
    m.map_values(|s: String| s@)
}

/// The texts of a map of maps of strings.
pub open spec fn date_texts(m: Map<Seq<char>, StrMap<String>>) -> Map<
    Seq<char>,
    Map<Seq<char>, Seq<char>>,
> {
    m.map_values(|t: StrMap<String>| texts(t@))
}

/// The texts of a map of maps of maps of strings.
pub open spec fn type_texts(m: Map<Seq<char>, StrMap<StrMap<String>>>) -> Map<
    Seq<char>,
    Map<Seq<char>, Map<Seq<char>, Seq<char>>>,
> {
    m.map_values(|d: StrMap<StrMap<String>>| date_texts(d@))
}

/// The names of the kinds of data that `Calculated::initialize` fills.
pub open spec fn text_kinds() -> Seq<Seq<char>> {
    seq!["profit"@, "category"@, "group"@, "account"@, "budget"@, "row"@]
}

/// The entry under `k` in `m`, or an empty map where there is none.
pub open spec fn entry_or_empty<K, V>(m: Map<K, Map<K, V>>, k: K) -> Map<K, V> {
    if m.contains_key(k) {
        m[k]
    } else {
        Map::empty()
    }
}

/// Values as text, stored by type, then date, then key.
#[derive(Debug)]
pub struct Calculated {
    calculated_cache: StrMap<StrMap<StrMap<String>>>,
}

impl View for Calculated {
    type V = Map<Seq<char>, Map<Seq<char>, Map<Seq<char>, Seq<char>>>>;

    closed spec fn view(&self) -> Self::V {
        type_texts(self.calculated_cache@)
    }
}

fn copy_texts(m: &StrMap<String>) -> (r: StrMap<String>)
    ensures
        r@ == m@,
{
    let keys = m.keys();
    let mut r: StrMap<String> = StrMap::new();
    let mut i: usize = 0;
    while i < keys.len()
        invariant
            i <= keys@.len(),
            lists_keys(keys@, m@),
            forall|k: Seq<char>| #[trigger]
                r@.contains_key(k) <==> exists|j: int| 0 <= j < i && keys@[j]@ == k,
            forall|k: Seq<char>| #[trigger] r@.contains_key(k) ==> m@.contains_key(k) && r@[k] == m@[k],
        decreases keys@.len() - i,
    {
        let value = m.get(&keys[i]).unwrap().clone();
        r.insert(keys[i].clone(), value);
        proof {
            assert forall|k: Seq<char>| #[trigger]
                r@.contains_key(k) <==> exists|j: int| 0 <= j < i + 1 && keys@[j]@ == k by {
                if k == keys@[i as int]@ {
                    assert(keys@[i as int]@ == k);
                }
            }
        }
        i = i + 1;
    }
    proof {
        assert forall|k: Seq<char>| #[trigger] m@.contains_key(k) implies r@.contains_key(k) by {
            let j = choose|j: int| 0 <= j < keys@.len() && #[trigger] keys@[j]@ == k;
        }
        assert(r@ =~= m@);
    }
    r
}

fn copy_dates(m: &StrMap<StrMap<String>>) -> (r: StrMap<StrMap<String>>)
    ensures
        date_texts(r@) == date_texts(m@),
{
    let keys = m.keys();
    let mut r: StrMap<StrMap<String>> = StrMap::new();
    let mut i: usize = 0;
    while i < keys.len()
        invariant
            i <= keys@.len(),
            lists_keys(keys@, m@),
            forall|k: Seq<char>| #[trigger]
                r@.contains_key(k) <==> exists|j: int| 0 <= j < i && keys@[j]@ == k,
            forall|k: Seq<char>| #[trigger] r@.contains_key(k) ==> m@.contains_key(k) && r@[k]@ == m@[k]@,
        decreases keys@.len() - i,
    {
        let inner = copy_texts(m.get(&keys[i]).unwrap());
        r.insert(keys[i].clone(), inner);
        proof {
            assert forall|k: Seq<char>| #[trigger]
                r@.contains_key(k) <==> exists|j: int| 0 <= j < i + 1 && keys@[j]@ == k by {
                if k == keys@[i as int]@ {
                    assert(keys@[i as int]@ == k);
                }
            }
        }
        i = i + 1;
    }
    proof {
        assert forall|k: Seq<char>| #[trigger] m@.contains_key(k) implies r@.contains_key(k) by {
            let j = choose|j: int| 0 <= j < keys@.len() && #[trigger] keys@[j]@ == k;
        }
        assert(date_texts(r@) =~= date_texts(m@));
    }
    r
}

impl Calculated {
    /// An empty cache.
    pub fn new() -> (c: Self)
        ensures
            c@ == Map::<Seq<char>, Map<Seq<char>, Map<Seq<char>, Seq<char>>>>::empty(),
    {
        let c = Calculated { calculated_cache: StrMap::new() };
        assert(c@ =~= Map::<Seq<char>, Map<Seq<char>, Map<Seq<char>, Seq<char>>>>::empty());
        c
    }

    /// Empties the cache, then puts a copy of `generate_cache` under each of the
    /// kinds of `text_kinds`.
    pub fn initialize(&mut self, generate_cache: StrMap<StrMap<String>>)
        ensures
            final(self)@.dom() == text_kinds().to_set(),
            forall|k: Seq<char>| #[trigger] final(self)@.contains_key(k) ==> final(self)@[k] == date_texts(generate_cache@),
    {
        let mut cache: StrMap<StrMap<StrMap<String>>> = StrMap::new();
        cache.insert("profit".to_string(), copy_dates(&generate_cache));
        cache.insert("category".to_string(), copy_dates(&generate_cache));
        cache.insert("group".to_string(), copy_dates(&generate_cache));
        cache.insert("account".to_string(), copy_dates(&generate_cache));
        cache.insert("budget".to_string(), copy_dates(&generate_cache));
        cache.insert("row".to_string(), copy_dates(&generate_cache));
        self.calculated_cache = cache;
        proof {
            assert(self@.dom() =~= text_kinds().to_set());
        }
    }

    /// Whether a value is stored under `has_type`, `date` and `key`.
    pub fn has(&mut self, has_type: &String, date: &String, key: &String) -> (b: bool)
        ensures
            b == (old(self)@.contains_key(has_type@) && old(self)@[has_type@].contains_key(date@)
                && old(self)@[has_type@][date@].contains_key(key@)),
            final(self)@ == old(self)@,
    {
        match self.calculated_cache.get(has_type) {
            None => false,
            Some(dates) => match dates.get(date) {
                None => false,
                Some(keys) => match keys.get(key) {
                    None => false,
                    Some(_) => true,
                },
            },
        }
    }

    /// The value stored under `has_type`, `date` and `key`, if there is one.
    pub fn get(&mut self, has_type: &String, date: &String, key: &String) -> (r: Option<&String>)
        ensures
            match r {
                Some(s) => old(self)@.contains_key(has_type@) && old(self)@[has_type@].contains_key(
                    date@,
                ) && old(self)@[has_type@][date@].contains_key(key@) && s@
                    == old(self)@[has_type@][date@][key@],
                None => !(old(self)@.contains_key(has_type@) && old(self)@[has_type@].contains_key(
                    date@,
                ) && old(self)@[has_type@][date@].contains_key(key@)),
            },
            final(self)@ == old(self)@,
    {
        match self.calculated_cache.get(has_type) {
            None => None,
            Some(dates) => match dates.get(date) {
                None => None,
                Some(keys) => keys.get(key),
            },
        }
    }

    /// Stores `value` under `has_type`, `date` and `key`, making the maps for
    /// `has_type` and `date` where they are missing.
    pub fn set(&mut self, has_type: &String, date: &String, key: &String, value: &String)
        ensures
            final(self)@ == old(self)@.insert(
                has_type@,
                entry_or_empty(old(self)@, has_type@).insert(
                    date@,
                    entry_or_empty(entry_or_empty(old(self)@, has_type@), date@).insert(key@, value@),
                ),
            ),
    {
        let ghost v0 = self@;
        let ghost c0 = self.calculated_cache@;
        if self.calculated_cache.get(has_type).is_none() {
            self.calculated_cache.insert(has_type.clone(), StrMap::new());
        }
        let ghost c1 = self.calculated_cache@;
        let ghost type_before = entry_or_empty(v0, has_type@);
        let ghost date_before = entry_or_empty(type_before, date@);
        assert(date_texts(c1[has_type@]@) =~= type_before);
        match self.calculated_cache.get_mut(has_type) {
            Some(dates) => {
                if dates.get(date).is_none() {
                    dates.insert(date.clone(), StrMap::new());
                }
                let ghost d1 = dates@;
                assert(texts(d1[date@]@) =~= date_before);
                match dates.get_mut(date) {
                    Some(keys) => keys.insert(key.clone(), value.clone()),
                    None => {},
                }
                proof {
                    assert(texts(dates@[date@]@) =~= date_before.insert(key@, value@));
                    assert(date_texts(dates@) =~= type_before.insert(date@, date_before.insert(key@, value@)));
                }
            },
            None => {},
        }
        proof {
            assert(self@ =~= v0.insert(has_type@, type_before.insert(date@, date_before.insert(key@, value@))));
        }
    }
}

} // verus!

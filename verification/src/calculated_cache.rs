//! The cache of values already calculated, by type, date and key.
use vstd::prelude::*;

use crate::any_map::{fresh_month_cache, has_table, lookup3, put3, table_at, AnyMap};
use crate::value::{Stored, Value};

verus! {

/// The names of the kinds of data that `Calculated::initialize` prepares.
pub open spec fn calculated_kinds() -> Seq<Seq<char>> {
    seq!["profit"@, "category"@, "group"@, "account"@, "budget"@, "row"@]
}

/// `new` is `old` with a fresh month cache under each of `kinds`, and every
/// other entry as it was.
pub open spec fn prepared(
    old: Map<Seq<char>, Value>,
    new: Map<Seq<char>, Value>,
    kinds: Seq<Seq<char>>,
) -> bool {
    &&& new.dom() == old.dom().union(kinds.to_set())
    &&& forall|k: Seq<char>| #[trigger] new.contains_key(k) && !kinds.contains(k) ==> new[k] == old[k]
    &&& forall|i: int| 0 <= i < kinds.len() ==> #[trigger] has_table(new, kinds[i]) && fresh_month_cache(table_at(new, kinds[i]))
}

/// What `Calculated::set` makes of the contents `old`: where `t` holds a map,
/// `v` is stored three levels down as `put3` says; else only an empty map is put
/// under `t`.
pub open spec fn calculated_set(
    old: Map<Seq<char>, Value>,
    new: Map<Seq<char>, Value>,
    t: Seq<char>,
    d: Seq<char>,
    k: Seq<char>,
    v: Value,
) -> bool {
    if has_table(old, t) {
        put3(old, new, t, d, k, v)
    } else {
        &&& new == old.insert(t, new[t])
        &&& has_table(new, t)
        &&& table_at(new, t) == Map::<Seq<char>, Value>::empty()
    }
}

/// Values already calculated, stored by type, then date, then key.
#[derive(Debug)]
pub struct Calculated {
    calculated_cache: AnyMap,
}

impl View for Calculated {
    type V = Map<Seq<char>, Value>;

    closed spec fn view(&self) -> Map<Seq<char>, Value> {
        self.calculated_cache@
    }
}

impl Calculated {
    /// An empty cache.
    pub fn new() -> (c: Self)
        ensures
            c@ == Map::<Seq<char>, Value>::empty(),
    {
        Self { calculated_cache: AnyMap::new() }
    }

    /// Puts a fresh month cache under each of the kinds of `calculated_kinds`.
    pub fn initialize(&mut self)
        ensures
            prepared(old(self)@, final(self)@, calculated_kinds()),
    {
        self.calculated_cache.set("profit".to_string(), AnyMap::generate_cache());
        self.calculated_cache.set("category".to_string(), AnyMap::generate_cache());
        self.calculated_cache.set("group".to_string(), AnyMap::generate_cache());
        self.calculated_cache.set("account".to_string(), AnyMap::generate_cache());
        self.calculated_cache.set("budget".to_string(), AnyMap::generate_cache());
        self.calculated_cache.set("row".to_string(), AnyMap::generate_cache());
        proof {
            let kinds = calculated_kinds();
            assert(self@.dom() =~= old(self)@.dom().union(kinds.to_set()));
        }
    }

    /// Whether a value of type `T` is stored under `key`, in the map under `date`,
    /// in the map under `has_type`.
    pub fn has<T: Stored>(&mut self, has_type: String, date: String, key: String) -> (b: bool)
        ensures
            b == lookup3::<T>(old(self)@, has_type@, date@, key@) is Some,
            final(self)@ == old(self)@,
    {
        if !self.calculated_cache.has::<AnyMap>(has_type.clone()) {
            return false;
        }
        if !self.calculated_cache.get::<AnyMap>(has_type.clone()).unwrap().has::<AnyMap>(date.clone()) {
            return false;
        }
        if !self.calculated_cache.get::<AnyMap>(has_type).unwrap().get::<AnyMap>(date).unwrap().has::<T>(key) {
            return false;
        }
        return true;
    }

    /// A mutable reference to the value of type `T` under `has_type`, `date` and
    /// `key`, if there is one; what is written through it is stored there.
    pub fn get_mut<T: Stored>(&mut self, has_type: String, date: String, key: String) -> (r: Option<&mut T>)
        ensures
            match r {
                Some(x) => lookup3::<T>(old(self)@, has_type@, date@, key@) == Some(*x)
                    && put3(old(self)@, final(self)@, has_type@, date@, key@, T::as_value(*final(x))),
                None => lookup3::<T>(old(self)@, has_type@, date@, key@) is None
                    && final(self)@ == old(self)@,
            },
    {
        if !self.calculated_cache.has::<AnyMap>(has_type.clone()) {
            return None;
        }
        if !self.calculated_cache.get::<AnyMap>(has_type.clone()).unwrap().has::<AnyMap>(date.clone()) {
            return None;
        }
        if !self.calculated_cache.get::<AnyMap>(has_type.clone()).unwrap().get::<AnyMap>(date.clone()).unwrap().has::<T>(key.clone()) {
            return None;
        }
        match self.calculated_cache.get_mut::<AnyMap>(has_type) {
            Some(type_map) => match type_map.get_mut::<AnyMap>(date) {
                Some(date_map) => date_map.get_mut::<T>(key),
                None => None,
            },
            None => None,
        }
    }

    /// Stores `value` under `has_type`, `date` and `key`. Where `has_type` holds no
    /// map yet, only an empty map is put under it and `value` is not stored; where
    /// `date` holds none, a map is made for it.
    pub fn set<T: Stored>(&mut self, has_type: String, date: String, key: String, value: T)
        ensures
            calculated_set(old(self)@, final(self)@, has_type@, date@, key@, T::as_value(value)),
    {
        if !self.calculated_cache.has::<AnyMap>(has_type.clone()) {
            self.calculated_cache.set::<AnyMap>(has_type, AnyMap::new());
            return;
        }
        let ghost m0 = self@;
        if !self.calculated_cache.get::<AnyMap>(has_type.clone()).unwrap().has::<AnyMap>(date.clone()) {
            match self.calculated_cache.get_mut::<AnyMap>(has_type.clone()) {
                Some(type_map) => type_map.set::<AnyMap>(date.clone(), AnyMap::new()),
                None => {},
            }
        }
        let ghost m1 = self@;
        proof {
            assert(m1 == m0.insert(has_type@, m1[has_type@]));
            assert(has_table(m1, has_type@));
            assert(has_table(table_at(m1, has_type@), date@));
            assert(table_at(m1, has_type@) == table_at(m0, has_type@).insert(date@, table_at(m1, has_type@)[date@]));
            assert(table_at(table_at(m1, has_type@), date@) == table_at(table_at(m0, has_type@), date@));
        }
        match self.calculated_cache.get_mut::<AnyMap>(has_type) {
            Some(type_map) => match type_map.get_mut::<AnyMap>(date) {
                Some(date_map) => date_map.set::<T>(key, value),
                None => {},
            },
            None => {},
        }
        proof {
            let m2 = self@;
            assert(m2 =~= m0.insert(has_type@, m2[has_type@]));
            assert(table_at(m2, has_type@) =~= table_at(m0, has_type@).insert(date@, table_at(m2, has_type@)[date@]));
        }
    }
}

} // verus!

//! A map from string keys to values of several types.
use vstd::prelude::*;

use crate::str_map::{lists_keys, StrMap};
use crate::value::{Stored, Value};

verus! {

/// A map from string keys to values of mixed types; a value is read back under
/// the type it was stored with.
#[derive(Debug)]
pub struct AnyMap {
    values: StrMap<Value>,
}

/// The value of type `T` stored under `k` in `m`, if there is one.
pub open spec fn typed<T: Stored>(m: Map<Seq<char>, Value>, k: Seq<char>) -> Option<T> {
    if m.contains_key(k) {
        T::stored_in(m[k])
    } else {
        None
    }
}

/// Whether `k` holds a nested map in `m`.
pub open spec fn has_table(m: Map<Seq<char>, Value>, k: Seq<char>) -> bool {
    typed::<AnyMap>(m, k) is Some
}

/// The contents of the nested map under `k` in `m`; empty where `k` holds none.
pub open spec fn table_at(m: Map<Seq<char>, Value>, k: Seq<char>) -> Map<Seq<char>, Value> {
    match typed::<AnyMap>(m, k) {
        Some(t) => t@,
        None => Map::empty(),
    }
}

/// The value of type `T` three levels down in `m`: under `k` in the map under `d`
/// in the map under `t`.
pub open spec fn lookup3<T: Stored>(
    m: Map<Seq<char>, Value>,
    t: Seq<char>,
    d: Seq<char>,
    k: Seq<char>,
) -> Option<T> {
    typed::<T>(table_at(table_at(m, t), d), k)
}

/// `new` is `old` with `v` stored three levels down, under `k` in the map under `d`
/// in the map under `t`; a level that held no map now holds one that has only
/// the new entry below it; every other entry of every level stays as it was.
pub open spec fn put3(
    old: Map<Seq<char>, Value>,
    new: Map<Seq<char>, Value>,
    t: Seq<char>,
    d: Seq<char>,
    k: Seq<char>,
    v: Value,
) -> bool {
    &&& new == old.insert(t, new[t])
    &&& has_table(new, t)
    &&& table_at(new, t) == table_at(old, t).insert(d, table_at(new, t)[d])
    &&& has_table(table_at(new, t), d)
    &&& table_at(table_at(new, t), d) == table_at(table_at(old, t), d).insert(k, v)
}

/// `new` is `old` with a nested map of contents `view` stored three levels down,
/// as `put3` says.
pub open spec fn put3_table(
    old: Map<Seq<char>, Value>,
    new: Map<Seq<char>, Value>,
    t: Seq<char>,
    d: Seq<char>,
    k: Seq<char>,
    view: Map<Seq<char>, Value>,
) -> bool {
    &&& put3(old, new, t, d, k, table_at(table_at(new, t), d)[k])
    &&& has_table(table_at(table_at(new, t), d), k)
    &&& table_at(table_at(table_at(new, t), d), k) == view
}

/// The contents of each map of the list `l`, in order.
pub open spec fn table_views(l: Seq<AnyMap>) -> Seq<Map<Seq<char>, Value>> {
    l.map_values(|t: AnyMap| t@)
}

/// `k` holds in `m` a list of maps whose contents are `views`, in order.
pub open spec fn holds_tables(
    m: Map<Seq<char>, Value>,
    k: Seq<char>,
    views: Seq<Map<Seq<char>, Value>>,
) -> bool {
    match typed::<Vec<AnyMap>>(m, k) {
        Some(l) => table_views(l@) == views,
        None => false,
    }
}

/// `new` is `old` with a list of maps of contents `views` stored three levels
/// down, as `put3` says.
pub open spec fn put3_list(
    old: Map<Seq<char>, Value>,
    new: Map<Seq<char>, Value>,
    t: Seq<char>,
    d: Seq<char>,
    k: Seq<char>,
    views: Seq<Map<Seq<char>, Value>>,
) -> bool {
    &&& put3(old, new, t, d, k, table_at(table_at(new, t), d)[k])
    &&& holds_tables(table_at(table_at(new, t), d), k, views)
}

/// `m` holds an empty map under each first day of the fiscal months, and nothing else.
pub open spec fn fresh_month_cache(m: Map<Seq<char>, Value>) -> bool {
    &&& m.dom() == fiscal_month_start_views().to_set()
    &&& forall|k: Seq<char>| #[trigger] m.contains_key(k) ==> has_table(m, k) && table_at(m, k) == Map::<Seq<char>, Value>::empty()
}

impl View for AnyMap {
    type V = Map<Seq<char>, Value>;

    closed spec fn view(&self) -> Map<Seq<char>, Value> {
        self.values@
    }
}

impl AnyMap {
    /// An empty map.
    pub fn new() -> (m: Self)
        ensures
            m@ == Map::<Seq<char>, Value>::empty(),
    {
        AnyMap { values: StrMap::new() }
    }

    /// Stores `v` under `k`, in place of what `k` held before, whatever its type.
    pub fn set<T: Stored>(&mut self, k: String, v: T)
        ensures
            final(self)@ == old(self)@.insert(k@, T::as_value(v)),
    {
        self.values.insert(k, v.into_value());
    }

    /// The value of type `T` stored under `key`, if `key` holds one of that type.
    pub fn get<T: Stored>(&self, key: String) -> (r: Option<&T>)
        ensures
            r matches Some(x) ==> typed::<T>(self@, key@) == Some(*x),
            r is None <==> typed::<T>(self@, key@) is None,
    {
        match self.values.get(&key) {
            None => None,
            Some(v) => T::from_value_ref(v),
        }
    }

    /// Whether `key` holds a value of type `T`.
    pub fn has<T: Stored>(&self, key: String) -> (b: bool)
        ensures
            b == typed::<T>(self@, key@) is Some,
    {
        let val = self.get::<T>(key);
        if val.is_none() {
            return false;
        }
        return true;
    }

    /// A mutable reference to the value of type `T` stored under `key`, if `key`
    /// holds one of that type; what is written through it is what `key` holds after.
    pub fn get_mut<T: Stored>(&mut self, key: String) -> (r: Option<&mut T>)
        ensures
            match r {
                Some(x) => typed::<T>(old(self)@, key@) == Some(*x) && final(self)@ == old(
                    self,
                )@.insert(key@, T::as_value(*final(x))),
                None => typed::<T>(old(self)@, key@) is None && final(self)@ == old(self)@,
            },
    {
        match self.values.get_mut(&key) {
            None => None,
            Some(v) => T::from_value_mut(v),
        }
    }

    /// The keys of the map, each once, in no promised order.
    pub fn keys(&self) -> (r: Vec<String>)
        ensures
            lists_keys(r@, self@),
    {
        self.values.keys()
    }

    /// A map that holds an empty map under each of the month starts of
    /// `fiscal_month_starts`.
    pub fn generate_cache() -> (m: AnyMap)
        ensures
            fresh_month_cache(m@),
    {
        let dates = fiscal_month_starts();
        let mut m = AnyMap::new();
        let mut i: usize = 0;
        while i < dates.len()
            invariant
                i <= dates@.len(),
                forall|j: int| 0 <= j < dates@.len() ==> #[trigger] dates@[j]@ == fiscal_month_start_views()[j],
                dates@.len() == fiscal_month_start_views().len(),
                m@.dom() == fiscal_month_start_views().take(i as int).to_set(),
                forall|k: Seq<char>|
                    #[trigger] m@.contains_key(k) ==> (has_table(m@, k) && table_at(m@, k)
                        == Map::<Seq<char>, Value>::empty()),
            decreases dates@.len() - i,
        {
            let ghost before = m@;
            m.set(dates[i].clone(), AnyMap::new());
            proof {
                let views = fiscal_month_start_views();
                assert(views.take(i + 1) == views.take(i as int).push(views[i as int]));
                views.take(i as int).lemma_push_to_set_commute(views[i as int]);
                assert(m@.dom() =~= views.take(i + 1).to_set());
            }
            i = i + 1;
        }
        proof {
            let views = fiscal_month_start_views();
            assert(views.take(views.len() as int) == views);
        }
        m
    }
}

/// The first days of the months of the fiscal year that the caches are made for.
pub open spec fn fiscal_month_start_views() -> Seq<Seq<char>> {
    seq![
        "2022-04-01"@,
        "2022-05-01"@,
        "2022-06-01"@,
        "2022-07-01"@,
        "2022-08-01"@,
        "2022-09-01"@,
        "2022-10-01"@,
        "2022-11-01"@,
        "2022-12-01"@,
        "2023-01-01"@,
        "2023-02-01"@,
        "2023-03-01"@,
    ]
}

/// The first days of the months of the fiscal year, in order, as `YYYY-MM-DD` text.
pub fn fiscal_month_starts() -> (r: Vec<String>)
    ensures
        r@.len() == fiscal_month_start_views().len(),
        forall|j: int| 0 <= j < r@.len() ==> #[trigger] r@[j]@ == fiscal_month_start_views()[j],
{
    let r = vec![
        "2022-04-01".to_string(),
        "2022-05-01".to_string(),
        "2022-06-01".to_string(),
        "2022-07-01".to_string(),
        "2022-08-01".to_string(),
        "2022-09-01".to_string(),
        "2022-10-01".to_string(),
        "2022-11-01".to_string(),
        "2022-12-01".to_string(),
        "2023-01-01".to_string(),
        "2023-02-01".to_string(),
        "2023-03-01".to_string(),
    ];
    r
}

} // verus!

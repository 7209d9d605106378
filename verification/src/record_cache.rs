//! The cache of records read for the calculation, by type, date and key.
use vstd::prelude::*;

use crate::any_map::{has_table, lookup3, put3, table_at, AnyMap};
use crate::str_map::lists_keys;
use crate::callback::{is_calculated, marked_calculated, RecordCallback};
use crate::cache_build::text_views;
use crate::formula_result::FormulaResults;
use crate::calculated_cache::prepared;
use crate::value::{Stored, Value};

verus! {

/// The names of the kinds of data that `Records::initialize` prepares.
pub open spec fn record_kinds() -> Seq<Seq<char>> {
    seq!["profit"@, "category"@, "group"@, "account"@, "account_unit"@, "budget"@, "row"@]
}

/// `new` differs from `old` at most in records under `has_type` and `date`, each
/// still a map, whose keys are among `keys` and which were not marked
/// calculated in `old`; every other record, and everything else, is as it was.
pub open spec fn only_listed_changed(
    old: Map<Seq<char>, Value>,
    new: Map<Seq<char>, Value>,
    has_type: Seq<char>,
    date: Seq<char>,
    keys: Seq<Seq<char>>,
) -> bool {
    let o = table_at(table_at(old, has_type), date);
    let n = table_at(table_at(new, has_type), date);
    &&& new == old.insert(has_type, new[has_type])
    &&& has_table(new, has_type)
    &&& table_at(new, has_type) == table_at(old, has_type).insert(date, table_at(new, has_type)[date])
    &&& has_table(table_at(new, has_type), date)
    &&& n.dom() == o.dom()
    &&& forall|k: Seq<char>| #[trigger] o.contains_key(k) && (!keys.contains(k) || marked_calculated(table_at(o, k))) ==> n[k] == o[k]
    &&& forall|k: Seq<char>| #[trigger] keys.contains(k) ==> has_table(n, k)
}

/// One visit of the record under `has_type`, `date` and `key`, in the contents
/// `before` with the results `results_before`: a record marked calculated is left
/// as it is, and so are the results; any other is handed to `c` with depth 100
/// and the results, and what `c` leaves of it is stored in its place.
pub open spec fn record_visit<C: RecordCallback>(
    c: C,
    has_type: Seq<char>,
    date: Seq<char>,
    key: Seq<char>,
    before: Map<Seq<char>, Value>,
    after: Map<Seq<char>, Value>,
    results_before: FormulaResults,
    results_after: FormulaResults,
) -> bool {
    let rec = table_at(table_at(table_at(before, has_type), date), key);
    if marked_calculated(rec) {
        &&& put3(before, after, has_type, date, key, table_at(table_at(before, has_type), date)[key])
        &&& results_after == results_before
    } else {
        &&& put3(before, after, has_type, date, key, table_at(table_at(after, has_type), date)[key])
        &&& has_table(table_at(table_at(after, has_type), date), key)
        &&& c.effect(
            100,
            rec,
            table_at(table_at(table_at(after, has_type), date), key),
            results_before,
            results_after,
        )
    }
}

/// `caches` and `results` are the contents and the results through visits of
/// the records under `has_type`, `date` and each of `keys`, in order.
pub open spec fn record_visits<C: RecordCallback>(
    c: C,
    has_type: Seq<char>,
    date: Seq<char>,
    keys: Seq<Seq<char>>,
    caches: Seq<Map<Seq<char>, Value>>,
    results: Seq<FormulaResults>,
) -> bool {
    &&& caches.len() == keys.len() + 1
    &&& results.len() == keys.len() + 1
    &&& forall|i: int|
        0 <= i < keys.len() ==> #[trigger] record_visit(
            c,
            has_type,
            date,
            keys[i],
            caches[i],
            caches[i + 1],
            results[i],
            results[i + 1],
        )
}

/// Records stored by type, then date, then key.
#[derive(Debug)]
pub struct Records {
    record_cache: AnyMap,
}

impl View for Records {
    type V = Map<Seq<char>, Value>;

    closed spec fn view(&self) -> Map<Seq<char>, Value> {
        self.record_cache@
    }
}

impl Records {
    /// An empty cache.
    pub fn new() -> (c: Self)
        ensures
            c@ == Map::<Seq<char>, Value>::empty(),
    {
        Self { record_cache: AnyMap::new() }
    }

    /// Puts a fresh month cache under each of the kinds of `record_kinds`.
    pub fn initialize(&mut self)
        ensures
            prepared(old(self)@, final(self)@, record_kinds()),
    {
        self.record_cache.set("profit".to_string(), AnyMap::generate_cache());
        self.record_cache.set("category".to_string(), AnyMap::generate_cache());
        self.record_cache.set("group".to_string(), AnyMap::generate_cache());
        self.record_cache.set("account".to_string(), AnyMap::generate_cache());
        self.record_cache.set("account_unit".to_string(), AnyMap::generate_cache());
        self.record_cache.set("budget".to_string(), AnyMap::generate_cache());
        self.record_cache.set("row".to_string(), AnyMap::generate_cache());
        proof {
            let kinds = record_kinds();
            assert(self@.dom() =~= old(self)@.dom().union(kinds.to_set()));
        }
    }

    /// Whether a value of type `T` is stored under `key`, in the map under `date`,
    /// in the map under `has_type`.
    pub fn has<T: Stored>(&mut self, has_type: String, date: String, key: String) -> (b: bool)
        ensures
            b == lookup3::<T>(old(self)@, has_type@, date@, key@) is Some,
            final(self)@ == old(self)@,
    {
        if !self.record_cache.has::<AnyMap>(has_type.clone()) {
            return false;
        }
        if !self.record_cache.get::<AnyMap>(has_type.clone()).unwrap().has::<AnyMap>(date.clone()) {
            return false;
        }
        if !self.record_cache.get::<AnyMap>(has_type).unwrap().get::<AnyMap>(date).unwrap().has::<T>(key) {
            return false;
        }
        return true;
    }

    /// A mutable reference to the value of type `T` under `has_type`, `date` and
    /// `key`, if there is one; what is written through it is stored there.
    pub fn get_mut<T: Stored>(&mut self, has_type: String, date: String, key: String) -> (r: Option<&mut T>)
        ensures
            match r {
                Some(x) => lookup3::<T>(old(self)@, has_type@, date@, key@) == Some(*x)
                    && put3(old(self)@, final(self)@, has_type@, date@, key@, T::as_value(*final(x))),
                None => lookup3::<T>(old(self)@, has_type@, date@, key@) is None
                    && final(self)@ == old(self)@,
            },
    {
        if !self.record_cache.has::<AnyMap>(has_type.clone()) {
            return None;
        }
        if !self.record_cache.get::<AnyMap>(has_type.clone()).unwrap().has::<AnyMap>(date.clone()) {
            return None;
        }
        if !self.record_cache.get::<AnyMap>(has_type.clone()).unwrap().get::<AnyMap>(date.clone()).unwrap().has::<T>(key.clone()) {
            return None;
        }
        match self.record_cache.get_mut::<AnyMap>(has_type) {
            Some(type_map) => match type_map.get_mut::<AnyMap>(date) {
                Some(date_map) => date_map.get_mut::<T>(key),
                None => None,
            },
            None => None,
        }
    }

    /// Stores `value` under `has_type`, `date` and `key`, making the maps for
    /// `has_type` and `date` where they are missing.
    pub fn set<T: Stored>(&mut self, has_type: String, date: String, key: String, value: T)
        ensures
            put3(old(self)@, final(self)@, has_type@, date@, key@, T::as_value(value)),
    {
        let ghost m0 = self@;
        let ghost v = T::as_value(value);
        if !self.record_cache.has::<AnyMap>(has_type.clone()) {
            let mut data_map = AnyMap::new();
            data_map.set::<T>(key, value);
            let mut type_map = AnyMap::new();
            type_map.set::<AnyMap>(date, data_map);
            self.record_cache.set::<AnyMap>(has_type, type_map);
            proof {
                assert(table_at(m0, has_type@) == Map::<Seq<char>, Value>::empty());
                assert(table_at(self@, has_type@) =~= Map::<Seq<char>, Value>::empty().insert(date@, table_at(self@, has_type@)[date@]));
                assert(table_at(table_at(self@, has_type@), date@) =~= Map::<Seq<char>, Value>::empty().insert(key@, v));
            }
            return;
        }
        if !self.record_cache.get::<AnyMap>(has_type.clone()).unwrap().has::<AnyMap>(date.clone()) {
            let mut data_map = AnyMap::new();
            data_map.set::<T>(key, value);
            match self.record_cache.get_mut::<AnyMap>(has_type.clone()) {
                Some(type_map) => type_map.set::<AnyMap>(date.clone(), data_map),
                None => {},
            }
            proof {
                assert(table_at(table_at(m0, has_type@), date@) == Map::<Seq<char>, Value>::empty());
                assert(table_at(table_at(self@, has_type@), date@) =~= Map::<Seq<char>, Value>::empty().insert(key@, v));
            }
            return;
        }
        match self.record_cache.get_mut::<AnyMap>(has_type) {
            Some(type_map) => match type_map.get_mut::<AnyMap>(date) {
                Some(date_map) => date_map.set::<T>(key, value),
                None => {},
            },
            None => {},
        }
    }

    /// Whether `has_type` holds a map that holds a map under `date`.
    pub fn holds_date(&self, has_type: String, date: String) -> (b: bool)
        ensures
            b == (has_table(self@, has_type@) && has_table(table_at(self@, has_type@), date@)),
    {
        match self.record_cache.get::<AnyMap>(has_type) {
            Some(type_map) => type_map.has::<AnyMap>(date),
            None => false,
        }
    }

    /// The keys of the map under `has_type` and `date`, each once.
    pub fn get_type_data_keys(&mut self, has_type: String, date: String) -> (r: Vec<String>)
        requires
            has_table(old(self)@, has_type@),
            has_table(table_at(old(self)@, has_type@), date@),
        ensures
            lists_keys(r@, table_at(table_at(old(self)@, has_type@), date@)),
            final(self)@ == old(self)@,
    {
        self.record_cache.get::<AnyMap>(has_type).unwrap().get::<AnyMap>(date).unwrap().keys()
    }

    /// Hands each record under `has_type`, `date` and each of `keys` that is not
    /// marked calculated to `c`, with depth 100, in the order of `keys`.
    pub fn each_uncalculated<C: RecordCallback>(
        &mut self,
        has_type: String,
        date: String,
        keys: Vec<String>,
        c: &C,
        formula_results: &mut FormulaResults,
    )
        requires
            has_table(old(self)@, has_type@),
            has_table(table_at(old(self)@, has_type@), date@),
            forall|i: int| 0 <= i < keys@.len() ==> has_table(
                table_at(table_at(old(self)@, has_type@), date@),
                #[trigger] keys@[i]@,
            ),
        ensures
            only_listed_changed(
                old(self)@,
                final(self)@,
                has_type@,
                date@,
                text_views(keys@),
            ),
            exists|caches: Seq<Map<Seq<char>, Value>>, results: Seq<FormulaResults>|
                #![trigger record_visits(*c, has_type@, date@, text_views(keys@), caches, results)]
                record_visits(*c, has_type@, date@, text_views(keys@), caches, results)
                    && caches[0] == old(self)@ && caches[keys@.len() as int] == final(self)@
                    && results[0] == *old(formula_results) && results[keys@.len() as int]
                    == *final(formula_results),
    {
        let ghost m0 = self@;
        let ghost all = text_views(keys@);
        let ghost mut caches: Seq<Map<Seq<char>, Value>> = seq![m0];
        let ghost mut results: Seq<FormulaResults> = seq![*formula_results];
        let ghost o = table_at(table_at(m0, has_type@), date@);
        proof {
            assert(self@ =~= m0.insert(has_type@, self@[has_type@]));
            assert(table_at(self@, has_type@) =~= table_at(m0, has_type@).insert(date@, table_at(self@, has_type@)[date@]));
        }
        let mut i: usize = 0;
        while i < keys.len()
            invariant
                i <= keys@.len(),
                all == text_views(keys@),
                o == table_at(table_at(m0, has_type@), date@),
                forall|j: int| 0 <= j < keys@.len() ==> has_table(o, #[trigger] keys@[j]@),
                only_listed_changed(m0, self@, has_type@, date@, all.take(i as int)),
                forall|k: Seq<char>| #[trigger] all.contains(k) ==> has_table(table_at(table_at(self@, has_type@), date@), k),
                record_visits(*c, has_type@, date@, all.take(i as int), caches, results),
                caches[0] == m0,
                caches[i as int] == self@,
                results[0] == *old(formula_results),
                results[i as int] == *formula_results,
            decreases keys@.len() - i,
        {
            let ghost cur = self@;
            let ghost results_before = *formula_results;
            let key = keys[i].clone();
            assert(all[i as int] == key@);
            let rec = self.record_cache.get_mut::<AnyMap>(has_type.clone()).unwrap().get_mut::<AnyMap>(
                date.clone(),
            ).unwrap().get_mut::<AnyMap>(key).unwrap();
            if !is_calculated(rec) {
                c.call(100, rec, formula_results);
            }
            proof {
                let n = table_at(table_at(self@, has_type@), date@);
                let taken = all.take(i as int);
                let next = all.take(i + 1);
                assert(next =~= taken.push(keys@[i as int]@));
                assert forall|k: Seq<char>| #[trigger] o.contains_key(k) && (!next.contains(k) || marked_calculated(table_at(o, k))) implies n[k] == o[k] by {
                    if k == keys@[i as int]@ {
                        if !next.contains(k) {
                            assert(next[i as int] == k);
                        }
                    } else {
                        if !next.contains(k) {
                            assert forall|j: int| 0 <= j < taken.len() implies taken[j] != k by {
                                assert(next[j] == taken[j]);
                            }
                        }
                    }
                }
                assert(self@ =~= m0.insert(has_type@, self@[has_type@]));
                assert(table_at(self@, has_type@) =~= table_at(m0, has_type@).insert(date@, table_at(self@, has_type@)[date@]));
                assert(n.dom() =~= o.dom());
                assert forall|k: Seq<char>| #[trigger] next.contains(k) implies has_table(n, k) by {
                    let j = choose|j: int| 0 <= j < next.len() && next[j] == k;
                    assert(all[j] == k);
                }
                let key_view = keys@[i as int]@;
                assert(has_table(table_at(table_at(cur, has_type@), date@), key_view));
                assert(self@ =~= cur.insert(has_type@, self@[has_type@]));
                assert(table_at(self@, has_type@) =~= table_at(cur, has_type@).insert(
                    date@,
                    table_at(self@, has_type@)[date@],
                ));
                assert(table_at(table_at(self@, has_type@), date@) =~= table_at(table_at(cur, has_type@), date@).insert(
                    key_view,
                    table_at(table_at(self@, has_type@), date@)[key_view],
                ));
                assert(record_visit(*c, has_type@, date@, key_view, cur, self@, results_before, *formula_results));
                let next_caches = caches.push(self@);
                let next_results = results.push(*formula_results);
                assert forall|j: int| 0 <= j < next.len() implies #[trigger] record_visit(
                    *c,
                    has_type@,
                    date@,
                    next[j],
                    next_caches[j],
                    next_caches[j + 1],
                    next_results[j],
                    next_results[j + 1],
                ) by {
                    if j < i {
                        assert(next[j] == taken[j]);
                        assert(next_caches[j] == caches[j] && next_caches[j + 1] == caches[j + 1]);
                        assert(next_results[j] == results[j] && next_results[j + 1] == results[j + 1]);
                    }
                }
                caches = next_caches;
                results = next_results;
            }
            i = i + 1;
        }
        assert(all.take(keys@.len() as int) =~= all);
        assert(record_visits(*c, has_type@, date@, all, caches, results) && caches[0] == m0
            && caches[keys@.len() as int] == self@ && results[0] == *old(formula_results)
            && results[keys@.len() as int] == *formula_results);
    }
}

} // verus!

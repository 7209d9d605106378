//! The cache of summaries, by type.
use vstd::prelude::*;

use crate::any_map::{has_table, table_at, typed, AnyMap};
use crate::str_map::lists_keys;
use crate::calculated_cache::prepared;
use crate::callback::{is_calculated, marked_calculated, row_visit, row_visits, RowCallback};
use crate::formula_result::FormulaResults;
use crate::value::{Stored, Value};

verus! {

/// The names of the kinds of data that `Summaries::initialize` prepares.
pub open spec fn summary_kinds() -> Seq<Seq<char>> {
    seq!["budget"@, "row"@]
}

/// Summaries, each kind of them a map under its name.
#[derive(Debug)]
pub struct Summaries {
    summary_cache: AnyMap,
}

impl View for Summaries {
    type V = Map<Seq<char>, Value>;

    closed spec fn view(&self) -> Map<Seq<char>, Value> {
        self.summary_cache@
    }
}

impl Summaries {
    /// An empty cache.
    pub fn new() -> (c: Self)
        ensures
            c@ == Map::<Seq<char>, Value>::empty(),
    {
        Self { summary_cache: AnyMap::new() }
    }

    /// Puts a fresh month cache under each of the kinds of `summary_kinds`.
    pub fn initialize(&mut self)
        ensures
            prepared(old(self)@, final(self)@, summary_kinds()),
    {
        self.summary_cache.set("budget".to_string(), AnyMap::generate_cache());
        self.summary_cache.set("row".to_string(), AnyMap::generate_cache());
        proof {
            let kinds = summary_kinds();
            assert(self@.dom() =~= old(self)@.dom().union(kinds.to_set()));
        }
    }

    /// A mutable reference to the map under `has_type`, if there is one; `date`
    /// and `key` play no part in the lookup.
    pub fn get_mut(&mut self, has_type: String, date: String, key: String) -> (r: Option<&mut AnyMap>)
        ensures
            match r {
                Some(x) => typed::<AnyMap>(old(self)@, has_type@) == Some(*x)
                    && final(self)@ == old(self)@.insert(has_type@, Value::Table(*final(x))),
                None => typed::<AnyMap>(old(self)@, has_type@) is None && final(self)@ == old(self)@,
            },
    {
        if !self.summary_cache.has::<AnyMap>(has_type.clone()) {
            return None;
        }
        return self.summary_cache.get_mut::<AnyMap>(has_type);
    }

    /// Stores `value` directly under `key`; `has_type` and `date` play no part.
    pub fn set<T: Stored>(&mut self, has_type: String, date: String, key: String, value: T)
        ensures
            final(self)@ == old(self)@.insert(key@, T::as_value(value)),
    {
        self.summary_cache.set::<T>(key, value);
    }

    /// The keys of the map under `has_type` and `date`, each once.
    pub fn get_type_data_keys(&mut self, has_type: String, date: String) -> (r: Vec<String>)
        requires
            has_table(old(self)@, has_type@),
            has_table(table_at(old(self)@, has_type@), date@),
        ensures
            lists_keys(r@, table_at(table_at(old(self)@, has_type@), date@)),
            final(self)@ == old(self)@,
    {
        self.summary_cache.get::<AnyMap>(has_type).unwrap().get::<AnyMap>(date).unwrap().keys()
    }

    /// For each of `keys`, hands the map under `has_type` to `c` while it is not
    /// marked calculated; `date` and the keys themselves play no part in the
    /// lookup.
    pub fn each_uncalculated_for_row<C: RowCallback>(
        &mut self,
        has_type: String,
        date: String,
        keys: Vec<String>,
        c: &C,
        formula_results: &mut FormulaResults,
    )
        requires
            keys@.len() > 0 ==> has_table(old(self)@, has_type@),
        ensures
            final(self)@ == old(self)@.insert(has_type@, final(self)@[has_type@]) || final(self)@
                == old(self)@,
            keys@.len() > 0 ==> has_table(final(self)@, has_type@),
            keys@.len() == 0 || marked_calculated(table_at(old(self)@, has_type@)) ==> final(self)@
                == old(self)@,
            keys@.len() > 0 ==> exists|states: Seq<Map<Seq<char>, Value>>, results: Seq<FormulaResults>|
                #![trigger row_visits(*c, states, results)]
                states.len() == keys@.len() + 1 && states[0] == table_at(old(self)@, has_type@)
                    && states[keys@.len() as int] == table_at(final(self)@, has_type@)
                    && results[0] == *old(formula_results) && results[keys@.len() as int]
                    == *final(formula_results) && row_visits(*c, states, results),
            keys@.len() == 0 ==> *final(formula_results) == *old(formula_results),
    {
        let ghost m0 = self@;
        let ghost mut states: Seq<Map<Seq<char>, Value>> = seq![table_at(m0, has_type@)];
        let ghost mut results: Seq<FormulaResults> = seq![*formula_results];
        let mut i: usize = 0;
        while i < keys.len()
            invariant
                i <= keys@.len(),
                keys@.len() > 0 ==> has_table(m0, has_type@),
                i == 0 ==> self@ == m0,
                i > 0 ==> self@ == m0.insert(has_type@, self@[has_type@]) && has_table(self@, has_type@),
                marked_calculated(table_at(m0, has_type@)) ==> self@ == m0,
                states.len() == i + 1,
                states[0] == table_at(m0, has_type@),
                states[i as int] == table_at(self@, has_type@),
                results.len() == i + 1,
                results[0] == *old(formula_results),
                results[i as int] == *formula_results,
                row_visits(*c, states, results),
            decreases keys@.len() - i,
        {
            let ghost cur = self@;
            let rec = Self::get_mut(self, has_type.clone(), date.clone(), keys[i].clone()).unwrap();
            let ghost before = rec@;
            let ghost results_before = *formula_results;
            if !is_calculated(rec) {
                c.call(rec, formula_results);
            }
            proof {
                let next = states.push(table_at(self@, has_type@));
                let next_results = results.push(*formula_results);
                assert(row_visit(*c, before, table_at(self@, has_type@), results_before, *formula_results));
                assert forall|j: int| 0 <= j < next.len() - 1 implies #[trigger] row_visit(
                    *c,
                    next[j],
                    next[j + 1],
                    next_results[j],
                    next_results[j + 1],
                ) by {
                    if j < i {
                        assert(next[j] == states[j] && next[j + 1] == states[j + 1]);
                        assert(next_results[j] == results[j] && next_results[j + 1] == results[j + 1]);
                    }
                }
                states = next;
                results = next_results;
                assert(self@ =~= m0.insert(has_type@, self@[has_type@]));
                if marked_calculated(table_at(m0, has_type@)) {
                    assert(cur == m0);
                    assert(self@ =~= m0);
                }
            }
            i = i + 1;
        }
        proof {
            if keys@.len() > 0 {
                assert(states.len() == keys@.len() + 1 && states[0] == table_at(old(self)@, has_type@)
                    && states[keys@.len() as int] == table_at(self@, has_type@)
                    && results[0] == *old(formula_results) && results[keys@.len() as int]
                    == *formula_results && row_visits(*c, states, results));
            }
        }
    }
}

} // verus!

//! The calculations that the caches hand their records to, one record at a time.
use vstd::prelude::*;

use crate::any_map::{typed, AnyMap};
use crate::formula_result::FormulaResults;
use crate::value::Value;

verus! {

/// A calculation run on a record not yet calculated, with a depth limit; it may
/// change the record and add results. `effect` says which contents of the
/// record and which results a call may leave, given the depth, the contents it
/// was handed and the results before; a calculation that does not say may leave
/// any.
pub trait RecordCallback {
    open spec fn effect(
        &self,
        depth: i32,
        before: Map<Seq<char>, Value>,
        after: Map<Seq<char>, Value>,
        results_before: FormulaResults,
        results_after: FormulaResults,
    ) -> bool {
        true
    }

    fn call(&self, depth: i32, rec: &mut AnyMap, formula_results: &mut FormulaResults)
        ensures
            self.effect(depth, old(rec)@, final(rec)@, *old(formula_results), *final(formula_results)),
    ;
}

/// A calculation run on a summary not yet calculated; it may change the summary
/// and add results. `effect` says which contents of the summary and which
/// results a call may leave, given the contents it was handed and the results
/// before; a calculation that does not say may leave any.
pub trait RowCallback {
    open spec fn effect(
        &self,
        before: Map<Seq<char>, Value>,
        after: Map<Seq<char>, Value>,
        results_before: FormulaResults,
        results_after: FormulaResults,
    ) -> bool {
        true
    }

    fn call(&self, rec: &mut AnyMap, formula_results: &mut FormulaResults)
        ensures
            self.effect(old(rec)@, final(rec)@, *old(formula_results), *final(formula_results)),
    ;
}

/// One visit of a summary whose contents are `before`, with the results
/// `results_before`: a summary marked calculated is left as it is, and so are
/// the results; any other is handed to `c` with the results.
pub open spec fn row_visit<C: RowCallback>(
    c: C,
    before: Map<Seq<char>, Value>,
    after: Map<Seq<char>, Value>,
    results_before: FormulaResults,
    results_after: FormulaResults,
) -> bool {
    if marked_calculated(before) {
        after == before && results_after == results_before
    } else {
        c.effect(before, after, results_before, results_after)
    }
}

/// `states` and `results` are the contents of a summary and the results through
/// a run of visits: each pair follows from the one before by `row_visit`.
pub open spec fn row_visits<C: RowCallback>(
    c: C,
    states: Seq<Map<Seq<char>, Value>>,
    results: Seq<FormulaResults>,
) -> bool {
    &&& results.len() == states.len()
    &&& forall|i: int|
        0 <= i < states.len() - 1 ==> #[trigger] row_visit(
            c,
            states[i],
            states[i + 1],
            results[i],
            results[i + 1],
        )
}

/// Whether the map `m` is marked calculated: `calculated` holds `true`.
pub open spec fn marked_calculated(m: Map<Seq<char>, Value>) -> bool {
    typed::<bool>(m, "calculated"@) == Some(true)
}

/// Whether `rec` is marked calculated.
pub fn is_calculated(rec: &AnyMap) -> (b: bool)
    ensures
        b == marked_calculated(rec@),
{
    !rec.get::<bool>("calculated".to_string()).is_none() && *rec.get::<bool>(
        "calculated".to_string(),
    ).unwrap()
}

} // verus!

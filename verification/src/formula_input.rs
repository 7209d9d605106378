//! Which records the formulas take, and what they take from them.
use vstd::prelude::*;

use crate::any_map::{table_views, typed, AnyMap};
use crate::callback::{is_calculated, marked_calculated};
use crate::value::{F64Bits, JsonText, Value};

verus! {

/// Whether the row formula applies to a record: it is not marked calculated
/// and it holds a formula.
pub open spec fn takes_row_formula(rec: Map<Seq<char>, Value>) -> bool {
    !marked_calculated(rec) && typed::<JsonText>(rec, "formula_json"@) is Some
}

/// Whether the row formula applies to `rec`.
pub fn needs_row_formula(rec: &AnyMap) -> (b: bool)
    ensures
        b == takes_row_formula(rec@),
{
    !is_calculated(rec) && !rec.get::<JsonText>("formula_json".to_string()).is_none()
}

/// The forecasts of the records not marked calculated, in order.
pub open spec fn uncalculated_forecasts(rs: Seq<Map<Seq<char>, Value>>) -> Seq<F64Bits>
    decreases rs.len(),
{
    if rs.len() == 0 {
        Seq::empty()
    } else {
        let before = uncalculated_forecasts(rs.drop_last());
        if marked_calculated(rs.last()) {
            before
        } else {
            before.push(typed::<F64Bits>(rs.last(), "forecast"@)->0)
        }
    }
}

/// The budget id of the last record not marked calculated, or 0 where there is none.
pub open spec fn last_uncalculated_budget_id(rs: Seq<Map<Seq<char>, Value>>) -> i64
    decreases rs.len(),
{
    if rs.len() == 0 {
        0
    } else if marked_calculated(rs.last()) {
        last_uncalculated_budget_id(rs.drop_last())
    } else {
        typed::<i64>(rs.last(), "budget_id"@)->0
    }
}

/// Each record not marked calculated holds a forecast and a budget id.
pub open spec fn budget_fields_ready(rs: Seq<Map<Seq<char>, Value>>) -> bool {
    forall|i: int|
        0 <= i < rs.len() && !marked_calculated(#[trigger] rs[i]) ==> typed::<F64Bits>(
            rs[i],
            "forecast"@,
        ) is Some && typed::<i64>(rs[i], "budget_id"@) is Some
}

/// What the budget formula takes from `records`: the forecasts of those not
/// marked calculated, in order, and the budget id of the last of them (0 where
/// there is none).
pub fn budget_selection(records: &Vec<AnyMap>) -> (r: (Vec<F64Bits>, i64))
    requires
        budget_fields_ready(table_views(records@)),
    ensures
        r.0@ == uncalculated_forecasts(table_views(records@)),
        r.1 == last_uncalculated_budget_id(table_views(records@)),
{
    let ghost views = table_views(records@);
    let mut forecasts: Vec<F64Bits> = Vec::new();
    let mut budget_id: i64 = 0;
    let mut i: usize = 0;
    assert(views.take(0) =~= Seq::<Map<Seq<char>, Value>>::empty());
    while i < records.len()
        invariant
            i <= records@.len(),
            views == table_views(records@),
            budget_fields_ready(views),
            forecasts@ == uncalculated_forecasts(views.take(i as int)),
            budget_id == last_uncalculated_budget_id(views.take(i as int)),
        decreases records@.len() - i,
    {
        let rec = &records[i];
        assert(views.take(i + 1).drop_last() =~= views.take(i as int));
        assert(views.take(i + 1).last() == rec@);
        if !is_calculated(rec) {
            assert(views[i as int] == rec@);
            forecasts.push(*rec.get::<F64Bits>("forecast".to_string()).unwrap());
            budget_id = *rec.get::<i64>("budget_id".to_string()).unwrap();
        }
        i = i + 1;
    }
    assert(views.take(records@.len() as int) =~= views);
    (forecasts, budget_id)
}

} // verus!

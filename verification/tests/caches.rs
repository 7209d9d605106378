use calc_summary::any_map::AnyMap;
use calc_summary::calculated_cache::Calculated;
use calc_summary::callback::{is_calculated, RecordCallback, RowCallback};
use calc_summary::formula_result::{FormulaResultData, FormulaResults};
use calc_summary::record_cache::Records;
use calc_summary::summary_cache::Summaries;
use calc_summary::value::F64Bits;

fn s(x: &str) -> String {
    x.to_string()
}

#[test]
fn calculated_set_under_a_prepared_type_is_read_back() {
    let mut c = Calculated::new();
    c.initialize();
    assert!(!c.has::<F64Bits>(s("row"), s("2022-04-01"), s("17")));
    c.set(s("row"), s("2022-04-01"), s("17"), F64Bits(2.5f64.to_bits()));
    assert!(c.has::<F64Bits>(s("row"), s("2022-04-01"), s("17")));
    assert_eq!(*c.get_mut::<F64Bits>(s("row"), s("2022-04-01"), s("17")).unwrap(), F64Bits(2.5f64.to_bits()));
    c.set(s("row"), s("1999-01-01"), s("1"), true);
    assert!(c.has::<bool>(s("row"), s("1999-01-01"), s("1")));
}

#[test]
fn calculated_set_under_a_missing_type_only_makes_the_type() {
    let mut c = Calculated::new();
    c.set(s("row"), s("2022-04-01"), s("17"), 3i64);
    assert!(!c.has::<i64>(s("row"), s("2022-04-01"), s("17")));
    c.set(s("row"), s("2022-04-01"), s("17"), 3i64);
    assert!(c.has::<i64>(s("row"), s("2022-04-01"), s("17")));
}

#[test]
fn calculated_get_mut_writes_back() {
    let mut c = Calculated::new();
    c.initialize();
    c.set(s("budget"), s("2022-05-01"), s("9"), 1i64);
    *c.get_mut::<i64>(s("budget"), s("2022-05-01"), s("9")).unwrap() = 5;
    assert_eq!(*c.get_mut::<i64>(s("budget"), s("2022-05-01"), s("9")).unwrap(), 5);
    assert!(c.get_mut::<bool>(s("budget"), s("2022-05-01"), s("9")).is_none());
    assert!(c.get_mut::<i64>(s("profit"), s("2022-05-01"), s("9")).is_none());
}

#[test]
fn records_set_makes_the_missing_levels() {
    let mut r = Records::new();
    r.set(s("row"), s("2022-04-01"), s("1"), 10i64);
    assert!(r.has::<i64>(s("row"), s("2022-04-01"), s("1")));
    r.set(s("row"), s("2022-05-01"), s("2"), 20i64);
    r.set(s("row"), s("2022-05-01"), s("3"), 30i64);
    assert_eq!(*r.get_mut::<i64>(s("row"), s("2022-05-01"), s("3")).unwrap(), 30);
    let mut keys = r.get_type_data_keys(s("row"), s("2022-05-01"));
    keys.sort();
    assert_eq!(keys, vec![s("2"), s("3")]);
    assert_eq!(r.get_type_data_keys(s("row"), s("2022-04-01")), vec![s("1")]);
}

#[test]
fn records_initialize_prepares_the_months() {
    let mut r = Records::new();
    r.initialize();
    assert_eq!(r.get_type_data_keys(s("account_unit"), s("2022-12-01")).len(), 0);
    assert!(!r.has::<Vec<AnyMap>>(s("account_unit"), s("2022-12-01"), s("x")));
}

struct MarkDone;

impl RecordCallback for MarkDone {
    fn call(&self, depth: i32, rec: &mut AnyMap, formula_results: &mut FormulaResults) {
        let id = *rec.get::<i64>(s("row_id")).unwrap();
        rec.set(s("calculated"), true);
        formula_results.push(s("row"), FormulaResultData { id, value: Some(F64Bits(depth as u64)) });
    }
}

fn record(row_id: i64, calculated: bool) -> AnyMap {
    let mut m = AnyMap::new();
    m.set(s("row_id"), row_id);
    m.set(s("calculated"), calculated);
    m
}

#[test]
fn each_uncalculated_skips_calculated_records() {
    let mut r = Records::new();
    r.set(s("row"), s("2022-04-01"), s("1"), record(1, false));
    r.set(s("row"), s("2022-04-01"), s("2"), record(2, true));
    r.set(s("row"), s("2022-04-01"), s("3"), record(3, false));
    let mut results = FormulaResults::new();
    r.each_uncalculated(s("row"), s("2022-04-01"), vec![s("1"), s("2"), s("3"), s("1")], &MarkDone, &mut results);
    let ids: Vec<i64> = results.row.iter().map(|d| d.id).collect();
    assert_eq!(ids, vec![1, 3]);
    assert_eq!(results.row[0].value, Some(F64Bits(100)));
    assert!(is_calculated(r.get_mut::<AnyMap>(s("row"), s("2022-04-01"), s("3")).unwrap()));
}

struct CountRow;

impl RowCallback for CountRow {
    fn call(&self, rec: &mut AnyMap, formula_results: &mut FormulaResults) {
        let n = rec.keys().len() as i64;
        formula_results.push(s("budget"), FormulaResultData { id: n, value: None });
    }
}

#[test]
fn summaries_store_by_key_and_hand_out_the_type_map() {
    let mut sm = Summaries::new();
    sm.initialize();
    let mut results = FormulaResults::new();
    sm.each_uncalculated_for_row(s("row"), s("2022-04-01"), vec![s("a"), s("b")], &CountRow, &mut results);
    assert_eq!(results.budget.len(), 2);
    assert_eq!(results.budget[0].id, 12);
    sm.set(s("row"), s("2022-04-01"), s("total"), 4i64);
    assert!(sm.get_mut(s("total"), s(""), s("")).is_none());
    assert_eq!(sm.get_mut(s("row"), s("2022-04-01"), s("total")).unwrap().keys().len(), 12);
    assert_eq!(sm.get_type_data_keys(s("budget"), s("2023-01-01")).len(), 0);
}

#[test]
fn calculated_summaries_are_not_handed_out() {
    let mut sm = Summaries::new();
    let mut done = AnyMap::new();
    done.set(s("calculated"), true);
    sm.set(s(""), s(""), s("row"), done);
    let mut results = FormulaResults::new();
    sm.each_uncalculated_for_row(s("row"), s("2022-04-01"), vec![s("a")], &CountRow, &mut results);
    assert_eq!(results.budget.len(), 0);
}

#[test]
fn formula_results_go_to_their_kind() {
    let mut r = FormulaResults::new();
    r.push(s("row"), FormulaResultData { id: 1, value: None });
    r.push(s("budget"), FormulaResultData { id: 2, value: Some(F64Bits(0)) });
    r.push(s("other"), FormulaResultData { id: 3, value: None });
    assert_eq!(r.row, vec![FormulaResultData { id: 1, value: None }]);
    assert_eq!(r.budget, vec![FormulaResultData { id: 2, value: Some(F64Bits(0)) }]);
}

struct PushDepth;

impl RecordCallback for PushDepth {
    fn call(&self, depth: i32, _rec: &mut AnyMap, formula_results: &mut FormulaResults) {
        formula_results.push(s("row"), FormulaResultData { id: depth as i64, value: None });
    }
}

#[test]
fn each_uncalculated_runs_the_callback_at_depth_100_per_listed_key() {
    let mut r = Records::new();
    let mut a = AnyMap::new();
    a.set(s("calculated"), true);
    let mut b = AnyMap::new();
    b.set(s("calculated"), false);
    r.set(s("row"), s("d"), s("a"), a);
    r.set(s("row"), s("d"), s("b"), b);
    let mut fr = FormulaResults::new();
    r.each_uncalculated(s("row"), s("d"), vec![s("a"), s("b"), s("b")], &PushDepth, &mut fr);
    assert_eq!(fr.row.len(), 2);
    assert_eq!(fr.row[0].id, 100);
    assert_eq!(fr.row[1].id, 100);
    assert!(fr.budget.is_empty());
}

#[test]
fn each_uncalculated_for_row_hands_the_callers_results_on() {
    let mut sm = Summaries::new();
    sm.initialize();
    let mut results = FormulaResults::new();
    results.push(s("budget"), FormulaResultData { id: -1, value: None });
    sm.each_uncalculated_for_row(s("row"), s("any"), vec![s("x"), s("y"), s("z")], &CountRow, &mut results);
    let ids: Vec<i64> = results.budget.iter().map(|d| d.id).collect();
    assert_eq!(ids, vec![-1, 12, 12, 12]);
}

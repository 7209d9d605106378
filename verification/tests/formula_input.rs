use calc_summary::any_map::AnyMap;
use calc_summary::formula_input::{budget_selection, needs_row_formula};
use calc_summary::value::{F64Bits, JsonText};

fn s(x: &str) -> String {
    x.to_string()
}

fn budget_record(forecast: f64, budget_id: i64, calculated: Option<bool>) -> AnyMap {
    let mut m = AnyMap::new();
    m.set(s("forecast"), F64Bits(forecast.to_bits()));
    m.set(s("budget_id"), budget_id);
    if let Some(c) = calculated {
        m.set(s("calculated"), c);
    }
    m
}

#[test]
fn row_formula_needs_a_formula_and_no_calculated_mark() {
    let mut rec = AnyMap::new();
    assert!(!needs_row_formula(&rec));
    rec.set(s("formula_json"), JsonText(s("[1]")));
    assert!(needs_row_formula(&rec));
    rec.set(s("calculated"), false);
    assert!(needs_row_formula(&rec));
    rec.set(s("calculated"), true);
    assert!(!needs_row_formula(&rec));
}

#[test]
fn row_formula_ignores_a_formula_of_another_type() {
    let mut rec = AnyMap::new();
    rec.set(s("formula_json"), 1i64);
    assert!(!needs_row_formula(&rec));
}

#[test]
fn budget_selection_skips_calculated_and_takes_the_last_budget_id() {
    let records = vec![
        budget_record(1.0, 7, None),
        budget_record(2.0, 8, Some(true)),
        budget_record(3.0, 9, Some(false)),
    ];
    let (forecasts, budget_id) = budget_selection(&records);
    assert_eq!(forecasts, vec![F64Bits(1.0f64.to_bits()), F64Bits(3.0f64.to_bits())]);
    assert_eq!(budget_id, 9);
}

#[test]
fn budget_selection_of_calculated_records_only_is_empty() {
    let records = vec![budget_record(1.0, 7, Some(true))];
    let (forecasts, budget_id) = budget_selection(&records);
    assert!(forecasts.is_empty());
    assert_eq!(budget_id, 0);
    let (none, zero) = budget_selection(&Vec::new());
    assert!(none.is_empty());
    assert_eq!(zero, 0);
}

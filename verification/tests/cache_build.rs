use calc_summary::any_map::{fiscal_month_starts, AnyMap};
use calc_summary::cache_build::{
    cache_account_record, cache_budget_record, cache_row_record, AccountRecord, BudgetRecord,
    CacheError, RowRecord,
};
use calc_summary::calculated_cache::Calculated;
use calc_summary::record_cache::Records;
use calc_summary::value::{CalendarDay, F64Bits, JsonText, UuidValue};

const APRIL_1_2022: i32 = 738246;
const UUID: u128 = 0x7231fb2d_c5a1_49d3_9481_9ec8846e9337;

fn s(x: &str) -> String {
    x.to_string()
}

fn bits(x: f64) -> F64Bits {
    F64Bits(x.to_bits())
}

fn caches() -> (AnyMap, Calculated, Records) {
    let mut c = Calculated::new();
    c.initialize();
    let mut r = Records::new();
    r.initialize();
    (AnyMap::generate_cache(), c, r)
}

fn row(row_id: i64, calculated: bool, is_not_aggregate: bool) -> RowRecord {
    RowRecord {
        row_id,
        budget_id: Some(5),
        date: CalendarDay(APRIL_1_2022),
        formula_json: Some(JsonText(s("{\"f\":1}"))),
        value: Some(bits(2.5)),
        calculated: Some(calculated),
        is_not_aggregate: Some(is_not_aggregate),
    }
}

#[test]
fn calculated_row_hands_back_its_addition() {
    let (mut budget_row, mut c, mut r) = caches();
    let add = cache_row_record(&mut budget_row, &mut c, &mut r, row(17, true, false), false)
        .unwrap()
        .unwrap();
    assert_eq!(add.date, "2022-04-01");
    assert_eq!(add.key, "5");
    assert_eq!(add.amount, bits(2.5));
    assert_eq!(*c.get_mut::<F64Bits>(s("row"), s("2022-04-01"), s("17")).unwrap(), bits(2.5));
    let list = budget_row.get::<AnyMap>(s("2022-04-01")).unwrap().get::<Vec<AnyMap>>(s("5")).unwrap();
    assert_eq!(list.len(), 1);
    assert_eq!(list[0].get::<i64>(s("row_id")), Some(&-1));
    assert_eq!(list[0].get::<F64Bits>(s("value")), Some(&F64Bits(0)));
    assert_eq!(list[0].get::<bool>(s("calculated")), Some(&true));
    assert_eq!(list[0].get::<CalendarDay>(s("date")), Some(&CalendarDay(APRIL_1_2022)));
    assert_eq!(r.get_type_data_keys(s("row"), s("2022-04-01")).len(), 0);
}

#[test]
fn uncalculated_row_joins_its_budget_and_the_record_cache() {
    let (mut budget_row, mut c, mut r) = caches();
    let out = cache_row_record(&mut budget_row, &mut c, &mut r, row(-8, false, false), false);
    assert!(out.unwrap().is_none());
    let list = budget_row.get::<AnyMap>(s("2022-04-01")).unwrap().get::<Vec<AnyMap>>(s("5")).unwrap();
    assert_eq!(list.len(), 2);
    assert_eq!(list[1].get::<i64>(s("row_id")), Some(&-8));
    assert_eq!(list[1].get::<F64Bits>(s("value")), Some(&bits(2.5)));
    let rec = r.get_mut::<AnyMap>(s("row"), s("2022-04-01"), s("-8")).unwrap();
    assert_eq!(rec.get::<JsonText>(s("formula_json")).unwrap().0, "{\"f\":1}");
    assert_eq!(rec.get::<bool>(s("is_not_aggregate")), Some(&false));
    assert_eq!(rec.keys().len(), 6);
    assert!(!c.has::<F64Bits>(s("row"), s("2022-04-01"), s("-8")));
}

#[test]
fn rows_outside_the_aggregate_leave_the_budget_list_at_its_placeholder() {
    let (mut budget_row, mut c, mut r) = caches();
    assert!(cache_row_record(&mut budget_row, &mut c, &mut r, row(1, true, false), true).unwrap().is_none());
    assert!(cache_row_record(&mut budget_row, &mut c, &mut r, row(2, false, true), false).unwrap().is_none());
    let list = budget_row.get::<AnyMap>(s("2022-04-01")).unwrap().get::<Vec<AnyMap>>(s("5")).unwrap();
    assert_eq!(list.len(), 1);
    let mut rec = row(3, false, false);
    rec.budget_id = None;
    cache_row_record(&mut budget_row, &mut c, &mut r, rec, false).unwrap();
    let list = budget_row.get::<AnyMap>(s("2022-04-01")).unwrap().get::<Vec<AnyMap>>(s("")).unwrap();
    assert_eq!(list.len(), 2);
}

#[test]
fn row_errors_leave_the_caches_alone() {
    let (mut budget_row, mut c, mut r) = caches();
    let mut rec = row(1, true, false);
    rec.date = CalendarDay(i32::MAX);
    assert_eq!(cache_row_record(&mut budget_row, &mut c, &mut r, rec, false).err(), Some(CacheError::DateOutOfRange));
    let mut rec = row(1, true, false);
    rec.date = CalendarDay(APRIL_1_2022 - 1);
    assert_eq!(cache_row_record(&mut budget_row, &mut c, &mut r, rec, false).err(), Some(CacheError::MonthNotPrepared));
    budget_row.get_mut::<AnyMap>(s("2022-04-01")).unwrap().set(s("5"), AnyMap::new());
    assert_eq!(
        cache_row_record(&mut budget_row, &mut c, &mut r, row(1, true, false), false).err(),
        Some(CacheError::BudgetNotAList)
    );
    assert!(!c.has::<F64Bits>(s("row"), s("2022-04-01"), s("1")));
    assert!(cache_row_record(&mut budget_row, &mut c, &mut r, row(1, true, false), true).unwrap().is_none());
    assert!(c.has::<F64Bits>(s("row"), s("2022-04-01"), s("1")));
}

fn budget(budget_id: i64, calculated: bool, amount: Option<f64>) -> BudgetRecord {
    BudgetRecord {
        budget_id,
        account_id: Some(UuidValue(UUID)),
        unit_id: Some(2),
        date: CalendarDay(APRIL_1_2022 + 30),
        budget: amount.map(bits),
        forecast: Some(bits(7.0)),
        achievement: Some(bits(1.0)),
        calculated: Some(calculated),
    }
}

const KEY: &str = "7231fb2d-c5a1-49d3-9481-9ec8846e9337-2";

#[test]
fn calculated_budget_hands_back_its_addition() {
    let (_, mut c, mut r) = caches();
    let add = cache_budget_record(&mut c, &mut r, budget(3, true, None), false).unwrap().unwrap();
    assert_eq!(add.date, "2022-05-01");
    assert_eq!(add.key, KEY);
    assert_eq!(add.amount, bits(7.0));
    assert_eq!(*c.get_mut::<F64Bits>(s("budget"), s("2022-05-01"), s("3")).unwrap(), bits(7.0));
    let add = cache_budget_record(&mut c, &mut r, budget(4, true, Some(9.0)), false).unwrap().unwrap();
    assert_eq!(add.amount, bits(9.0));
    assert!(cache_budget_record(&mut c, &mut r, budget(4, true, Some(9.0)), true).unwrap().is_none());
    let list = r.get_mut::<Vec<AnyMap>>(s("account_unit"), s("2022-05-01"), s(KEY)).unwrap();
    assert_eq!(list.len(), 1);
    assert_eq!(list[0].get::<i64>(s("budget_id")), Some(&-1));
    assert_eq!(list[0].keys().len(), 7);
}

#[test]
fn uncalculated_budgets_join_their_account_unit() {
    let (_, mut c, mut r) = caches();
    assert!(cache_budget_record(&mut c, &mut r, budget(3, false, None), false).unwrap().is_none());
    assert!(cache_budget_record(&mut c, &mut r, budget(4, false, Some(2.0)), false).unwrap().is_none());
    let list = r.get_mut::<Vec<AnyMap>>(s("account_unit"), s("2022-05-01"), s(KEY)).unwrap();
    assert_eq!(list.len(), 3);
    assert_eq!(list[1].get::<F64Bits>(s("budget")), Some(&F64Bits(0)));
    assert_eq!(list[2].get::<F64Bits>(s("budget")), Some(&bits(2.0)));
    assert!(list[2].get::<F64Bits>(s("value")).is_none());
    let rec = r.get_mut::<AnyMap>(s("budget"), s("2022-05-01"), s("4")).unwrap();
    assert_eq!(rec.get::<F64Bits>(s("forecast")), Some(&bits(7.0)));
    assert!(!c.has::<F64Bits>(s("budget"), s("2022-05-01"), s("4")));
}

#[test]
fn budget_without_account_or_unit_has_a_bare_dash_key() {
    let (_, mut c, mut r) = caches();
    let mut rec = budget(3, true, Some(1.0));
    rec.account_id = None;
    rec.unit_id = None;
    let add = cache_budget_record(&mut c, &mut r, rec, false).unwrap().unwrap();
    assert_eq!(add.key, "-");
    let mut rec = budget(3, true, Some(1.0));
    rec.date = CalendarDay(i32::MIN);
    assert_eq!(cache_budget_record(&mut c, &mut r, rec, false).err(), Some(CacheError::DateOutOfRange));
}

fn account(profits: &str, groups: &str) -> AccountRecord {
    AccountRecord {
        account_id: Some(UuidValue(UUID)),
        category_id: Some(3),
        coefficient: Some(-1),
        group_id_array: Some(JsonText(s(groups))),
        profit_id_array: Some(JsonText(s(profits))),
    }
}

#[test]
fn accounts_join_their_profits_groups_category_and_account() {
    let mut r = Records::new();
    r.initialize();
    let dates = vec![s("2022-04-01"), s("2022-05-01")];
    assert!(cache_account_record(&mut r, &account("[1, 2, 1]", "[\"g\"]"), &dates));
    assert!(cache_account_record(&mut r, &account("[2]", "[]"), &dates));
    for d in &dates {
        let ones = r.get_mut::<Vec<AnyMap>>(s("profit"), d.clone(), s("1")).unwrap();
        assert_eq!(ones.len(), 2);
        assert_eq!(ones[0].get::<Option<i32>>(s("coefficient")), Some(&Some(-1)));
        assert_eq!(ones[0].get::<UuidValue>(s("account_id")), Some(&UuidValue(UUID)));
        assert_eq!(r.get_mut::<Vec<AnyMap>>(s("profit"), d.clone(), s("2")).unwrap().len(), 2);
        let groups = r.get_mut::<Vec<AnyMap>>(s("group"), d.clone(), s("\"g\"")).unwrap();
        assert_eq!(groups.len(), 1);
        assert_eq!(groups[0].get::<i32>(s("coefficient")), Some(&-1));
        assert_eq!(r.get_mut::<Vec<AnyMap>>(s("category"), d.clone(), s("3")).unwrap().len(), 2);
        let acct = r.get_mut::<Vec<AnyMap>>(s("account"), d.clone(), s("7231fb2d-c5a1-49d3-9481-9ec8846e9337")).unwrap();
        assert_eq!(acct.len(), 1);
        assert_eq!(acct[0].get::<JsonText>(s("group_id_array")).unwrap().0, "[]");
    }
    assert_eq!(r.get_type_data_keys(s("profit"), s("2022-06-01")).len(), 0);
}

#[test]
fn accounts_whose_ids_are_not_arrays_are_left_out() {
    let mut r = Records::new();
    r.initialize();
    let dates = fiscal_month_starts();
    assert!(!cache_account_record(&mut r, &account("{\"a\":1}", "[1]"), &dates));
    assert!(!cache_account_record(&mut r, &account("[1]", "3"), &dates));
    assert_eq!(r.get_type_data_keys(s("profit"), s("2022-04-01")).len(), 0);
    assert_eq!(r.get_type_data_keys(s("category"), s("2022-04-01")).len(), 0);
}

#[test]
fn accounts_with_no_dates_change_nothing() {
    let mut r = Records::new();
    let rec = AccountRecord {
        account_id: None,
        category_id: None,
        coefficient: None,
        group_id_array: Some(JsonText(s("[5]"))),
        profit_id_array: Some(JsonText(s("[6]"))),
    };
    assert!(cache_account_record(&mut r, &rec, &Vec::new()));
    assert!(!r.has::<Vec<AnyMap>>(s("profit"), s("2022-04-01"), s("6")));
}

//! Filling the caches from the rows, budgets and accounts that were read.
use vstd::prelude::*;

use crate::any_map::{has_table, holds_tables, lookup3, put3, put3_list, put3_table, table_at, table_views, typed, AnyMap};
use crate::calculated_cache::{calculated_set, Calculated};
use crate::record_cache::Records;
use crate::list_growth::{lemma_grow_dates, lemma_grow_keys, lemma_set_dates, lemma_single_set_visit, lemma_single_visit, list_base, lists_grown, lists_set};
use crate::text::{chrono_ymd_text, json_array_item_texts, json_array_items, day_text, decimal_text, int_text, uuid_hyphenated, uuid_text};
use crate::value::{CalendarDay, F64Bits, JsonText, UuidValue, Value};

verus! {

/// A row of the row table, as far as the caches read it.
pub struct RowRecord {
    pub row_id: i64,
    pub budget_id: Option<i64>,
    pub date: CalendarDay,
    pub formula_json: Option<JsonText>,
    pub value: Option<F64Bits>,
    pub calculated: Option<bool>,
    pub is_not_aggregate: Option<bool>,
}

/// An addition of `amount` to the `value` of the first map of the list under
/// `key`, in the map under `date`, that the caller performs in floating point.
pub struct PendingAdd {
    pub date: String,
    pub key: String,
    pub amount: F64Bits,
}

/// Why a record was not put into the caches.
#[derive(Clone, Copy, PartialEq, Eq, Debug)]
pub enum CacheError {
    /// chrono has no date with the record's day number.
    DateOutOfRange,
    /// The record's date holds no map in the cache of budget rows.
    MonthNotPrepared,
    /// The record's budget holds a map, not a list, in the cache of budget rows.
    BudgetNotAList,
}

/// The text of an optional id: its decimal text, or empty where there is none.
pub open spec fn opt_id_text(id: Option<i64>) -> Seq<char> {
    match id {
        Some(n) => decimal_text(n as int),
        None => Seq::<char>::empty(),
    }
}

/// The first entry of each budget's list of rows: a stand-in for the rows
/// already calculated, with value 0.
pub open spec fn placeholder_row_view(day: CalendarDay) -> Map<Seq<char>, Value> {
    map![
        "row_id"@ => Value::I64(-1i64),
        "date"@ => Value::Day(day),
        "value"@ => Value::Float(F64Bits(0u64)),
        "calculated"@ => Value::Bool(true),
    ]
}

/// The entry a row makes in its budget's list of rows.
pub open spec fn row_budget_view(rec: RowRecord) -> Map<Seq<char>, Value> {
    map![
        "row_id"@ => Value::I64(rec.row_id),
        "date"@ => Value::Day(rec.date),
        "value"@ => Value::Float(rec.value->0),
        "calculated"@ => Value::Bool(rec.calculated->0),
    ]
}

/// The entry a row not yet calculated makes in the record cache.
pub open spec fn row_view(rec: RowRecord) -> Map<Seq<char>, Value> {
    row_budget_view(rec).insert("formula_json"@, Value::Json(rec.formula_json->0)).insert(
        "is_not_aggregate"@,
        Value::Bool(rec.is_not_aggregate->0),
    )
}

/// Whether a row counts into its budget's total.
pub open spec fn row_aggregates(rec: RowRecord, is_not_aggregate_arg: bool) -> bool {
    !is_not_aggregate_arg && !(rec.is_not_aggregate->0)
}

/// What the inputs of `cache_row_keyed` must hold for it to run to its end.
pub open spec fn row_ready(
    budget_row: Map<Seq<char>, Value>,
    rec: RowRecord,
    row_date: Seq<char>,
    is_not_aggregate_arg: bool,
) -> bool {
    &&& rec.calculated is Some
    &&& rec.value is Some
    &&& !is_not_aggregate_arg ==> rec.is_not_aggregate is Some
    &&& !(rec.calculated->0) ==> rec.formula_json is Some && rec.is_not_aggregate is Some
    &&& has_table(budget_row, row_date)
    &&& row_aggregates(rec, is_not_aggregate_arg) ==> !has_table(
        table_at(budget_row, row_date),
        opt_id_text(rec.budget_id),
    )
}

/// What `cache_row_keyed` does with `rec` under the date text `row_date`: the
/// budget's list of rows in `budget_row` starts anew from the placeholder unless
/// the budget holds a map; a calculated row's value goes to the calculated
/// cache, and its addition to the budget's total is handed back; any other row
/// joins its budget's list where it counts into the total, and goes to the
/// record cache.
pub open spec fn row_cached(
    old_budget_row: Map<Seq<char>, Value>,
    new_budget_row: Map<Seq<char>, Value>,
    old_calculated: Map<Seq<char>, Value>,
    new_calculated: Map<Seq<char>, Value>,
    old_records: Map<Seq<char>, Value>,
    new_records: Map<Seq<char>, Value>,
    rec: RowRecord,
    row_date: Seq<char>,
    is_not_aggregate_arg: bool,
    r: Option<PendingAdd>,
) -> bool {
    let budget_key = opt_id_text(rec.budget_id);
    let row_key = decimal_text(rec.row_id as int);
    let calculated = rec.calculated->0;
    let aggregates = row_aggregates(rec, is_not_aggregate_arg);
    &&& if has_table(table_at(old_budget_row, row_date), budget_key) {
        new_budget_row == old_budget_row
    } else {
        &&& new_budget_row == old_budget_row.insert(row_date, new_budget_row[row_date])
        &&& has_table(new_budget_row, row_date)
        &&& table_at(new_budget_row, row_date) == table_at(old_budget_row, row_date).insert(
            budget_key,
            table_at(new_budget_row, row_date)[budget_key],
        )
        &&& holds_tables(
            table_at(new_budget_row, row_date),
            budget_key,
            if !calculated && aggregates {
                seq![placeholder_row_view(rec.date), row_budget_view(rec)]
            } else {
                seq![placeholder_row_view(rec.date)]
            },
        )
    }
    &&& if calculated {
        &&& calculated_set(
            old_calculated,
            new_calculated,
            "row"@,
            row_date,
            row_key,
            Value::Float(rec.value->0),
        )
        &&& new_records == old_records
    } else {
        &&& new_calculated == old_calculated
        &&& put3_table(old_records, new_records, "row"@, row_date, row_key, row_view(rec))
    }
    &&& match r {
        Some(add) => calculated && aggregates && add.date@ == row_date && add.key@ == budget_key
            && add.amount == rec.value->0,
        None => !(calculated && aggregates),
    }
}

fn placeholder_row(day: CalendarDay) -> (m: AnyMap)
    ensures
        m@ == placeholder_row_view(day),
{
    let mut m = AnyMap::new();
    m.set("row_id".to_string(), -1i64);
    m.set("date".to_string(), day);
    m.set("value".to_string(), F64Bits(0));
    m.set("calculated".to_string(), true);
    m
}

fn row_budget_entry(row_id: i64, day: CalendarDay, value: F64Bits, calculated: bool) -> (m: AnyMap)
    ensures
        m@ == map![
            "row_id"@ => Value::I64(row_id),
            "date"@ => Value::Day(day),
            "value"@ => Value::Float(value),
            "calculated"@ => Value::Bool(calculated),
        ],
{
    let mut m = AnyMap::new();
    m.set("row_id".to_string(), row_id);
    m.set("date".to_string(), day);
    m.set("value".to_string(), value);
    m.set("calculated".to_string(), calculated);
    m
}

/// Puts one row into the caches under the date text `row_date`, as `row_cached`
/// says; the addition to a budget's total that a calculated row makes is handed
/// back for the caller to perform.
pub fn cache_row_keyed(
    budget_row: &mut AnyMap,
    calculated_cache: &mut Calculated,
    record_cache: &mut Records,
    rec: RowRecord,
    row_date: String,
    is_not_aggregate_arg: bool,
) -> (r: Option<PendingAdd>)
    requires
        row_ready(old(budget_row)@, rec, row_date@, is_not_aggregate_arg),
    ensures
        row_cached(
            old(budget_row)@,
            final(budget_row)@,
            old(calculated_cache)@,
            final(calculated_cache)@,
            old(record_cache)@,
            final(record_cache)@,
            rec,
            row_date@,
            is_not_aggregate_arg,
            r,
        ),
{
    let ghost spec_rec = rec;
    let target_budget_id = match rec.budget_id {
        Some(id) => int_text(id),
        None => {
            let empty = "".to_string();
            proof {
                reveal_strlit("");
            }
            empty
        },
    };
    assert(target_budget_id@ == opt_id_text(rec.budget_id));
    let ghost br0 = budget_row@;
    let row_key = int_text(rec.row_id);
    let has_bucket = budget_row.get::<AnyMap>(row_date.clone()).unwrap().has::<AnyMap>(
        target_budget_id.clone(),
    );
    if !has_bucket {
        let list = vec![placeholder_row(rec.date)];
        assert(table_views(list@) =~= seq![placeholder_row_view(rec.date)]);
        match budget_row.get_mut::<AnyMap>(row_date.clone()) {
            Some(month) => month.set::<Vec<AnyMap>>(target_budget_id.clone(), list),
            None => {},
        }
        assert(holds_tables(table_at(budget_row@, row_date@), target_budget_id@, seq![placeholder_row_view(rec.date)]));
    }
    let ghost br1 = budget_row@;
    let calculated = rec.calculated.unwrap();
    let value = rec.value.unwrap();
    if calculated {
        calculated_cache.set::<F64Bits>("row".to_string(), row_date.clone(), row_key, value);
        if !is_not_aggregate_arg && !rec.is_not_aggregate.unwrap() {
            return Some(PendingAdd { date: row_date, key: target_budget_id, amount: value });
        }
        None
    } else {
        let is_not_aggregate = rec.is_not_aggregate.unwrap();
        if !is_not_aggregate_arg && !is_not_aggregate {
            let entry = row_budget_entry(rec.row_id, rec.date, value, calculated);
            let ghost month0 = table_at(br1, row_date@);
            let ghost list0 = typed::<Vec<AnyMap>>(month0, target_budget_id@)->0;
            match budget_row.get_mut::<AnyMap>(row_date.clone()) {
                Some(month) => match month.get_mut::<Vec<AnyMap>>(target_budget_id) {
                    Some(list) => list.push(entry),
                    None => {},
                },
                None => {},
            }
            proof {
                let month1 = table_at(budget_row@, row_date@);
                let list1 = typed::<Vec<AnyMap>>(month1, target_budget_id@)->0;
                assert(list1@ == list0@.push(entry));
                assert(table_views(list1@) =~= table_views(list0@).push(entry@));
                assert(entry@ == row_budget_view(spec_rec));
                assert(table_views(list1@) =~= seq![placeholder_row_view(spec_rec.date), row_budget_view(spec_rec)]);
                assert(budget_row@ =~= br0.insert(row_date@, budget_row@[row_date@]));
                assert(month1 =~= table_at(br0, row_date@).insert(target_budget_id@, month1[target_budget_id@]));
            }
        }
        let mut row_data = row_budget_entry(rec.row_id, rec.date, value, calculated);
        row_data.set("formula_json".to_string(), rec.formula_json.unwrap());
        row_data.set("is_not_aggregate".to_string(), is_not_aggregate);
        assert(row_data@ == row_view(spec_rec));
        let ghost rc0 = record_cache@;
        record_cache.set::<AnyMap>("row".to_string(), row_date, row_key, row_data);
        assert(put3_table(rc0, record_cache@, "row"@, row_date@, decimal_text(spec_rec.row_id as int), row_view(spec_rec)));
        assert(budget_row@ == br0 || !has_table(table_at(br0, row_date@), opt_id_text(spec_rec.budget_id)));
        None
    }
}

/// What a row must hold for `cache_row_record` to run to its end: the fields
/// that the row's case reads are there.
pub open spec fn row_fields_present(rec: RowRecord, is_not_aggregate_arg: bool) -> bool {
    &&& rec.calculated is Some
    &&& rec.value is Some
    &&& !is_not_aggregate_arg ==> rec.is_not_aggregate is Some
    &&& !(rec.calculated->0) ==> rec.formula_json is Some && rec.is_not_aggregate is Some
}

/// Puts one row into the caches under the text of its date, as `row_cached`
/// says. Where chrono has no date with the row's day number, where that date
/// holds no map in `budget_row`, or where the row counts into its budget's
/// total but the budget holds a map there, nothing changes and the error says
/// which.
pub fn cache_row_record(
    budget_row: &mut AnyMap,
    calculated_cache: &mut Calculated,
    record_cache: &mut Records,
    rec: RowRecord,
    is_not_aggregate_arg: bool,
) -> (r: Result<Option<PendingAdd>, CacheError>)
    requires
        row_fields_present(rec, is_not_aggregate_arg),
    ensures
        match chrono_ymd_text(rec.date.0) {
            None => r == Err::<Option<PendingAdd>, CacheError>(CacheError::DateOutOfRange),
            Some(row_date) => if !has_table(old(budget_row)@, row_date) {
                r == Err::<Option<PendingAdd>, CacheError>(CacheError::MonthNotPrepared)
            } else if row_aggregates(rec, is_not_aggregate_arg) && has_table(
                table_at(old(budget_row)@, row_date),
                opt_id_text(rec.budget_id),
            ) {
                r == Err::<Option<PendingAdd>, CacheError>(CacheError::BudgetNotAList)
            } else {
                r matches Ok(add) && row_cached(
                    old(budget_row)@,
                    final(budget_row)@,
                    old(calculated_cache)@,
                    final(calculated_cache)@,
                    old(record_cache)@,
                    final(record_cache)@,
                    rec,
                    row_date,
                    is_not_aggregate_arg,
                    add,
                )
            },
        },
        r is Err ==> final(budget_row)@ == old(budget_row)@ && final(calculated_cache)@ == old(
            calculated_cache,
        )@ && final(record_cache)@ == old(record_cache)@,
{
    let row_date = match day_text(rec.date) {
        Some(text) => text,
        None => return Err(CacheError::DateOutOfRange),
    };
    if !budget_row.has::<AnyMap>(row_date.clone()) {
        return Err(CacheError::MonthNotPrepared);
    }
    if !is_not_aggregate_arg && !rec.is_not_aggregate.unwrap() {
        let budget_key = match rec.budget_id {
            Some(id) => int_text(id),
            None => {
                let empty = "".to_string();
                proof {
                    reveal_strlit("");
                }
                empty
            },
        };
        assert(budget_key@ == opt_id_text(rec.budget_id));
        if budget_row.get::<AnyMap>(row_date.clone()).unwrap().has::<AnyMap>(budget_key) {
            return Err(CacheError::BudgetNotAList);
        }
    }
    Ok(cache_row_keyed(budget_row, calculated_cache, record_cache, rec, row_date, is_not_aggregate_arg))
}

/// A budget row of the budget table, as far as the caches read it.
pub struct BudgetRecord {
    pub budget_id: i64,
    pub account_id: Option<UuidValue>,
    pub unit_id: Option<i64>,
    pub date: CalendarDay,
    pub budget: Option<F64Bits>,
    pub forecast: Option<F64Bits>,
    pub achievement: Option<F64Bits>,
    pub calculated: Option<bool>,
}

/// The text of an optional UUID: its hyphenated text, or empty where there is none.
pub open spec fn opt_uuid_text(id: Option<UuidValue>) -> Seq<char> {
    match id {
        Some(u) => uuid_hyphenated(u.0),
        None => Seq::<char>::empty(),
    }
}

/// The key of a budget's account and unit: the two texts joined by `-`.
pub open spec fn account_unit_key(rec: BudgetRecord) -> Seq<char> {
    opt_uuid_text(rec.account_id) + "-"@ + opt_id_text(rec.unit_id)
}

/// The value a budget row adds to its account and unit: its budget, or its
/// forecast where it has no budget.
pub open spec fn budget_target_value(rec: BudgetRecord) -> F64Bits {
    match rec.budget {
        Some(b) => b,
        None => rec.forecast->0,
    }
}

/// The first entry of each account and unit's list: a stand-in for the budget
/// rows already calculated, with all amounts 0.
pub open spec fn placeholder_budget_view(day: CalendarDay) -> Map<Seq<char>, Value> {
    map![
        "budget_id"@ => Value::I64(-1i64),
        "date"@ => Value::Day(day),
        "value"@ => Value::Float(F64Bits(0u64)),
        "budget"@ => Value::Float(F64Bits(0u64)),
        "forecast"@ => Value::Float(F64Bits(0u64)),
        "achievement"@ => Value::Float(F64Bits(0u64)),
        "calculated"@ => Value::Bool(true),
    ]
}

/// The entry a budget row not yet calculated makes, in its account and unit's
/// list and in the record cache.
pub open spec fn budget_view(rec: BudgetRecord) -> Map<Seq<char>, Value> {
    map![
        "budget_id"@ => Value::I64(rec.budget_id),
        "date"@ => Value::Day(rec.date),
        "budget"@ => Value::Float(
            match rec.budget {
                Some(b) => b,
                None => F64Bits(0u64),
            },
        ),
        "forecast"@ => Value::Float(rec.forecast->0),
        "achievement"@ => Value::Float(rec.achievement->0),
        "calculated"@ => Value::Bool(rec.calculated->0),
    ]
}

/// What a budget row must hold for `cache_budget_record` to run to its end: the
/// fields that its case reads are there.
pub open spec fn budget_fields_present(rec: BudgetRecord) -> bool {
    &&& rec.calculated is Some
    &&& rec.budget is Some || rec.forecast is Some
    &&& !(rec.calculated->0) ==> rec.forecast is Some && rec.achievement is Some
}

/// The lists of the account and unit of a budget row before the row is taken
/// in: the list there, or the placeholder alone where there is none.
pub open spec fn account_unit_base(
    records: Map<Seq<char>, Value>,
    rec: BudgetRecord,
    budget_date: Seq<char>,
) -> Seq<Map<Seq<char>, Value>> {
    match lookup3::<Vec<AnyMap>>(records, "account_unit"@, budget_date, account_unit_key(rec)) {
        Some(l) => table_views(l@),
        None => seq![placeholder_budget_view(rec.date)],
    }
}

/// What `cache_budget_record` does with `rec` under the date text `budget_date`:
/// its account and unit get a list that starts from the placeholder where they
/// had none; a calculated row's value goes to the calculated cache, and its
/// addition to the first entry of that list is handed back unless
/// `is_not_aggregate_arg`; any other row joins the list and goes to the record
/// cache.
pub open spec fn budget_cached(
    old_calculated: Map<Seq<char>, Value>,
    new_calculated: Map<Seq<char>, Value>,
    old_records: Map<Seq<char>, Value>,
    new_records: Map<Seq<char>, Value>,
    rec: BudgetRecord,
    budget_date: Seq<char>,
    is_not_aggregate_arg: bool,
    r: Option<PendingAdd>,
) -> bool {
    let unit_key = account_unit_key(rec);
    let base = account_unit_base(old_records, rec, budget_date);
    let budget_key = decimal_text(rec.budget_id as int);
    if rec.calculated->0 {
        &&& put3_list(old_records, new_records, "account_unit"@, budget_date, unit_key, base)
        &&& calculated_set(
            old_calculated,
            new_calculated,
            "budget"@,
            budget_date,
            budget_key,
            Value::Float(budget_target_value(rec)),
        )
        &&& match r {
            Some(add) => !is_not_aggregate_arg && add.date@ == budget_date && add.key@ == unit_key
                && add.amount == budget_target_value(rec),
            None => is_not_aggregate_arg,
        }
    } else {
        &&& exists|mid: Map<Seq<char>, Value>|
            put3_list(
                old_records,
                mid,
                "account_unit"@,
                budget_date,
                unit_key,
                base.push(budget_view(rec)),
            ) && #[trigger] put3_table(mid, new_records, "budget"@, budget_date, budget_key, budget_view(rec))
        &&& new_calculated == old_calculated
        &&& r is None
    }
}

proof fn lemma_put3_same(m: Map<Seq<char>, Value>, t: Seq<char>, d: Seq<char>, k: Seq<char>)
    requires
        has_table(m, t),
        has_table(table_at(m, t), d),
        table_at(table_at(m, t), d).contains_key(k),
    ensures
        put3(m, m, t, d, k, table_at(table_at(m, t), d)[k]),
{
    assert(m =~= m.insert(t, m[t]));
    assert(table_at(m, t) =~= table_at(m, t).insert(d, table_at(m, t)[d]));
    assert(table_at(table_at(m, t), d) =~= table_at(table_at(m, t), d).insert(k, table_at(table_at(m, t), d)[k]));
}

proof fn lemma_put3_compose(
    a: Map<Seq<char>, Value>,
    b: Map<Seq<char>, Value>,
    c: Map<Seq<char>, Value>,
    t: Seq<char>,
    d: Seq<char>,
    k: Seq<char>,
    v1: Value,
    v2: Value,
)
    requires
        put3(a, b, t, d, k, v1),
        put3(b, c, t, d, k, v2),
    ensures
        put3(a, c, t, d, k, v2),
{
    assert(c =~= a.insert(t, c[t]));
    assert(table_at(c, t) =~= table_at(a, t).insert(d, table_at(c, t)[d]));
    assert(table_at(table_at(c, t), d) =~= table_at(table_at(a, t), d).insert(k, v2));
}

fn placeholder_budget(day: CalendarDay) -> (m: AnyMap)
    ensures
        m@ == placeholder_budget_view(day),
{
    let mut m = AnyMap::new();
    m.set("budget_id".to_string(), -1i64);
    m.set("date".to_string(), day);
    m.set("value".to_string(), F64Bits(0));
    m.set("budget".to_string(), F64Bits(0));
    m.set("forecast".to_string(), F64Bits(0));
    m.set("achievement".to_string(), F64Bits(0));
    m.set("calculated".to_string(), true);
    m
}

fn budget_entry(rec: &BudgetRecord) -> (m: AnyMap)
    requires
        budget_fields_present(*rec),
        !(rec.calculated->0),
    ensures
        m@ == budget_view(*rec),
{
    let mut m = AnyMap::new();
    m.set("budget_id".to_string(), rec.budget_id);
    m.set("date".to_string(), rec.date);
    m.set(
        "budget".to_string(),
        if rec.budget.is_none() {
            F64Bits(0)
        } else {
            rec.budget.unwrap()
        },
    );
    m.set("forecast".to_string(), rec.forecast.unwrap());
    m.set("achievement".to_string(), rec.achievement.unwrap());
    m.set("calculated".to_string(), rec.calculated.unwrap());
    m
}

/// Puts one budget row into the caches under the text of its date, as
/// `budget_cached` says; the addition to its account and unit's total that a
/// calculated row makes is handed back for the caller to perform. Where chrono
/// has no date with the row's day number, nothing changes.
pub fn cache_budget_record(
    calculated_cache: &mut Calculated,
    record_cache: &mut Records,
    rec: BudgetRecord,
    is_not_aggregate_arg: bool,
) -> (r: Result<Option<PendingAdd>, CacheError>)
    requires
        budget_fields_present(rec),
    ensures
        match chrono_ymd_text(rec.date.0) {
            None => r == Err::<Option<PendingAdd>, CacheError>(CacheError::DateOutOfRange)
                && final(calculated_cache)@ == old(calculated_cache)@ && final(record_cache)@
                == old(record_cache)@,
            Some(budget_date) => r matches Ok(add) && budget_cached(
                old(calculated_cache)@,
                final(calculated_cache)@,
                old(record_cache)@,
                final(record_cache)@,
                rec,
                budget_date,
                is_not_aggregate_arg,
                add,
            ),
        },
{
    let row_date = match day_text(rec.date) {
        Some(text) => text,
        None => return Err(CacheError::DateOutOfRange),
    };
    proof {
        reveal_strlit("");
    }
    let target_account_id = match rec.account_id {
        Some(u) => uuid_text(u),
        None => "".to_string(),
    };
    let target_unit_id = match rec.unit_id {
        Some(u) => int_text(u),
        None => "".to_string(),
    };
    let aukey = target_account_id.concat("-").concat(target_unit_id.as_str());
    assert(aukey@ == account_unit_key(rec));
    let budget_key = int_text(rec.budget_id);
    let ghost rc0 = record_cache@;
    if !record_cache.has::<Vec<AnyMap>>("account_unit".to_string(), row_date.clone(), aukey.clone()) {
        let list = vec![placeholder_budget(rec.date)];
        assert(table_views(list@) =~= seq![placeholder_budget_view(rec.date)]);
        let ghost list_value = Value::TableList(list);
        record_cache.set::<Vec<AnyMap>>("account_unit".to_string(), row_date.clone(), aukey.clone(), list);
        assert(table_at(table_at(record_cache@, "account_unit"@), row_date@)[aukey@] == list_value);
    } else {
        proof {
            lemma_put3_same(rc0, "account_unit"@, row_date@, aukey@);
        }
    }
    let ghost rc1 = record_cache@;
    assert(put3_list(rc0, rc1, "account_unit"@, row_date@, aukey@, account_unit_base(rc0, rec, row_date@)));
    let target_value = if rec.budget.is_none() {
        rec.forecast.unwrap()
    } else {
        rec.budget.unwrap()
    };
    if rec.calculated.unwrap() {
        calculated_cache.set::<F64Bits>("budget".to_string(), row_date.clone(), budget_key, target_value);
        if !is_not_aggregate_arg {
            return Ok(Some(PendingAdd { date: row_date, key: aukey, amount: target_value }));
        }
        Ok(None)
    } else {
        let entry = budget_entry(&rec);
        let ghost entry_view = entry@;
        let ghost list1 = lookup3::<Vec<AnyMap>>(rc1, "account_unit"@, row_date@, aukey@)->0;
        match record_cache.get_mut::<Vec<AnyMap>>("account_unit".to_string(), row_date.clone(), aukey) {
            Some(list) => list.push(entry),
            None => {},
        }
        let ghost rc2 = record_cache@;
        proof {
            let list2 = lookup3::<Vec<AnyMap>>(rc2, "account_unit"@, row_date@, aukey@)->0;
            assert(list2@ == list1@.push(entry));
            assert(table_views(list2@) =~= table_views(list1@).push(entry_view));
            lemma_put3_compose(rc0, rc1, rc2, "account_unit"@, row_date@, aukey@, table_at(table_at(rc1, "account_unit"@), row_date@)[aukey@], table_at(table_at(rc2, "account_unit"@), row_date@)[aukey@]);
        }
        let budget_data = budget_entry(&rec);
        record_cache.set::<AnyMap>("budget".to_string(), row_date, budget_key, budget_data);
        assert(put3_table(rc2, record_cache@, "budget"@, row_date@, budget_key@, budget_view(rec)));
        Ok(None)
    }
}

/// An account of the account table, as far as the caches read it.
pub struct AccountRecord {
    pub account_id: Option<UuidValue>,
    pub category_id: Option<i32>,
    pub coefficient: Option<i32>,
    pub group_id_array: Option<JsonText>,
    pub profit_id_array: Option<JsonText>,
}

/// The text of a JSON document.
pub open spec fn json_view(j: JsonText) -> Seq<char> {
    j.0@
}

/// The texts of the strings of `v`, in order.
pub open spec fn text_views(v: Seq<String>) -> Seq<Seq<char>> {
    v.map_values(|s: String| s@)
}

/// The entry an account makes in each of its lists. The lists by profit keep
/// the coefficient as it is, absent or not (`optional_coefficient`); the others
/// hold the coefficient itself.
pub open spec fn account_entry_view(rec: AccountRecord, optional_coefficient: bool) -> Map<
    Seq<char>,
    Value,
> {
    map![
        "account_id"@ => Value::Uuid(rec.account_id->0),
        "category_id"@ => Value::I32(rec.category_id->0),
        "coefficient"@ => if optional_coefficient {
            Value::MaybeI32(rec.coefficient)
        } else {
            Value::I32(rec.coefficient->0)
        },
        "group_id_array"@ => Value::Json(rec.group_id_array->0),
        "profit_id_array"@ => Value::Json(rec.profit_id_array->0),
    ]
}

/// The fields an account's entries read.
pub open spec fn account_fields_present(rec: AccountRecord) -> bool {
    &&& rec.account_id is Some
    &&& rec.category_id is Some
    &&& rec.coefficient is Some
    &&& rec.group_id_array is Some
    &&& rec.profit_id_array is Some
}

/// The key of an account's category: the category's decimal text, or empty.
pub open spec fn category_key(rec: AccountRecord) -> Seq<char> {
    match rec.category_id {
        Some(c) => decimal_text(c as int),
        None => Seq::<char>::empty(),
    }
}

/// What `cache_account_items` does with `rec`, whose profits and groups have the
/// texts `profit_ids` and `group_ids`: at each of `dates`, the entry joins the
/// list of each of its profits, then of each of its groups, then of its
/// category, and becomes the whole list of its account.
pub open spec fn account_cached(
    old: Map<Seq<char>, Value>,
    new: Map<Seq<char>, Value>,
    rec: AccountRecord,
    profit_ids: Seq<Seq<char>>,
    group_ids: Seq<Seq<char>>,
    dates: Seq<Seq<char>>,
) -> bool {
    exists|m1: Map<Seq<char>, Value>, m2: Map<Seq<char>, Value>, m3: Map<Seq<char>, Value>|
        #[trigger] lists_grown(old, m1, "profit"@, profit_ids, dates, account_entry_view(rec, true))
            && #[trigger] lists_grown(m1, m2, "group"@, group_ids, dates, account_entry_view(rec, false))
            && #[trigger] lists_grown(
            m2,
            m3,
            "category"@,
            seq![category_key(rec)],
            dates,
            account_entry_view(rec, false),
        ) && lists_set(m3, new, "account"@, opt_uuid_text(rec.account_id), dates, account_entry_view(rec, false))
}

fn json_copy(j: &Option<JsonText>) -> (r: JsonText)
    requires
        j is Some,
    ensures
        r == j->0,
{
    JsonText(j.as_ref().unwrap().0.clone())
}

fn account_entry(rec: &AccountRecord, optional_coefficient: bool) -> (m: AnyMap)
    requires
        account_fields_present(*rec),
    ensures
        m@ == account_entry_view(*rec, optional_coefficient),
{
    let mut m = AnyMap::new();
    m.set("account_id".to_string(), rec.account_id.unwrap());
    m.set("category_id".to_string(), rec.category_id.unwrap());
    if optional_coefficient {
        m.set("coefficient".to_string(), rec.coefficient);
    } else {
        m.set("coefficient".to_string(), rec.coefficient.unwrap());
    }
    m.set("group_id_array".to_string(), json_copy(&rec.group_id_array));
    m.set("profit_id_array".to_string(), json_copy(&rec.profit_id_array));
    m
}

fn add_entry(record_cache: &mut Records, kind: &String, date: &String, key: &String, entry: AnyMap)
    ensures
        put3_list(
            old(record_cache)@,
            final(record_cache)@,
            kind@,
            date@,
            key@,
            list_base(table_at(table_at(old(record_cache)@, kind@), date@), key@).push(entry@),
        ),
{
    let ghost rc0 = record_cache@;
    let ghost entry_view = entry@;
    if !record_cache.has::<Vec<AnyMap>>(kind.clone(), date.clone(), key.clone()) {
        let empty: Vec<AnyMap> = Vec::new();
        record_cache.set::<Vec<AnyMap>>(kind.clone(), date.clone(), key.clone(), empty);
        assert(table_views(Seq::<AnyMap>::empty()) =~= Seq::<Map<Seq<char>, Value>>::empty());
    } else {
        proof {
            lemma_put3_same(rc0, kind@, date@, key@);
        }
    }
    let ghost rc1 = record_cache@;
    let ghost list1 = lookup3::<Vec<AnyMap>>(rc1, kind@, date@, key@)->0;
    assert(table_views(list1@) == list_base(table_at(table_at(rc0, kind@), date@), key@));
    match record_cache.get_mut::<Vec<AnyMap>>(kind.clone(), date.clone(), key.clone()) {
        Some(list) => list.push(entry),
        None => {},
    }
    proof {
        let rc2 = record_cache@;
        let list2 = lookup3::<Vec<AnyMap>>(rc2, kind@, date@, key@)->0;
        assert(table_views(list2@) =~= table_views(list1@).push(entry_view));
        lemma_put3_compose(
            rc0,
            rc1,
            rc2,
            kind@,
            date@,
            key@,
            table_at(table_at(rc1, kind@), date@)[key@],
            table_at(table_at(rc2, kind@), date@)[key@],
        );
    }
}

fn add_for_key(
    record_cache: &mut Records,
    kind: &String,
    key: &String,
    dates: &Vec<String>,
    rec: &AccountRecord,
    optional_coefficient: bool,
)
    requires
        dates@.len() > 0 ==> account_fields_present(*rec),
    ensures
        lists_grown(
            old(record_cache)@,
            final(record_cache)@,
            kind@,
            seq![key@],
            text_views(dates@),
            account_entry_view(*rec, optional_coefficient),
        ),
{
    let ghost rc0 = record_cache@;
    let ghost all = text_views(dates@);
    let ghost entry_view = account_entry_view(*rec, optional_coefficient);
    let mut j: usize = 0;
    assert(all.take(0) =~= Seq::<Seq<char>>::empty());
    while j < dates.len()
        invariant
            j <= dates@.len(),
            all == text_views(dates@),
            dates@.len() > 0 ==> account_fields_present(*rec),
            entry_view == account_entry_view(*rec, optional_coefficient),
            lists_grown(rc0, record_cache@, kind@, seq![key@], all.take(j as int), entry_view),
        decreases dates@.len() - j,
    {
        let ghost cur = record_cache@;
        let entry = account_entry(rec, optional_coefficient);
        add_entry(record_cache, kind, &dates[j], key, entry);
        proof {
            lemma_single_visit(cur, record_cache@, kind@, dates@[j as int]@, key@, entry_view);
            lemma_grow_dates(
                rc0,
                cur,
                record_cache@,
                kind@,
                seq![key@],
                all.take(j as int),
                seq![dates@[j as int]@],
                entry_view,
            );
            assert(all.take(j as int) + seq![dates@[j as int]@] =~= all.take(j + 1));
        }
        j = j + 1;
    }
    assert(all.take(dates@.len() as int) =~= all);
}

fn add_for_keys(
    record_cache: &mut Records,
    kind: &String,
    keys: &Vec<String>,
    dates: &Vec<String>,
    rec: &AccountRecord,
    optional_coefficient: bool,
)
    requires
        dates@.len() > 0 ==> account_fields_present(*rec),
    ensures
        lists_grown(
            old(record_cache)@,
            final(record_cache)@,
            kind@,
            text_views(keys@),
            text_views(dates@),
            account_entry_view(*rec, optional_coefficient),
        ),
{
    let ghost rc0 = record_cache@;
    let ghost all = text_views(keys@);
    let ghost entry_view = account_entry_view(*rec, optional_coefficient);
    let mut i: usize = 0;
    assert(all.take(0) =~= Seq::<Seq<char>>::empty());
    while i < keys.len()
        invariant
            i <= keys@.len(),
            all == text_views(keys@),
            dates@.len() > 0 ==> account_fields_present(*rec),
            entry_view == account_entry_view(*rec, optional_coefficient),
            lists_grown(rc0, record_cache@, kind@, all.take(i as int), text_views(dates@), entry_view),
        decreases keys@.len() - i,
    {
        let ghost cur = record_cache@;
        add_for_key(record_cache, kind, &keys[i], dates, rec, optional_coefficient);
        proof {
            lemma_grow_keys(
                rc0,
                cur,
                record_cache@,
                kind@,
                all.take(i as int),
                seq![keys@[i as int]@],
                text_views(dates@),
                entry_view,
            );
            assert(all.take(i as int) + seq![keys@[i as int]@] =~= all.take(i + 1));
        }
        i = i + 1;
    }
    assert(all.take(keys@.len() as int) =~= all);
}

/// Puts one account into the record cache, as `account_cached` says, given the
/// texts of its profits and of its groups.
pub fn cache_account_items(
    record_cache: &mut Records,
    rec: &AccountRecord,
    profit_ids: &Vec<String>,
    group_ids: &Vec<String>,
    target_dates: &Vec<String>,
)
    requires
        target_dates@.len() > 0 ==> account_fields_present(*rec),
    ensures
        account_cached(
            old(record_cache)@,
            final(record_cache)@,
            *rec,
            text_views(profit_ids@),
            text_views(group_ids@),
            text_views(target_dates@),
        ),
{
    let ghost rc0 = record_cache@;
    let ghost dates = text_views(target_dates@);
    add_for_keys(record_cache, &"profit".to_string(), profit_ids, target_dates, rec, true);
    let ghost m1 = record_cache@;
    add_for_keys(record_cache, &"group".to_string(), group_ids, target_dates, rec, false);
    let ghost m2 = record_cache@;
    proof {
        reveal_strlit("");
    }
    let target_category_id = match rec.category_id {
        Some(c) => int_text(c as i64),
        None => "".to_string(),
    };
    let target_account_id = match rec.account_id {
        Some(u) => uuid_text(u),
        None => "".to_string(),
    };
    add_for_key(record_cache, &"category".to_string(), &target_category_id, target_dates, rec, false);
    let ghost m3 = record_cache@;
    let ghost entry_view = account_entry_view(*rec, false);
    let mut j: usize = 0;
    assert(dates.take(0) =~= Seq::<Seq<char>>::empty());
    while j < target_dates.len()
        invariant
            j <= target_dates@.len(),
            dates == text_views(target_dates@),
            target_dates@.len() > 0 ==> account_fields_present(*rec),
            entry_view == account_entry_view(*rec, false),
            target_account_id@ == opt_uuid_text(rec.account_id),
            lists_set(m3, record_cache@, "account"@, target_account_id@, dates.take(j as int), entry_view),
        decreases target_dates@.len() - j,
    {
        let ghost cur = record_cache@;
        let list = vec![account_entry(rec, false)];
        assert(table_views(list@) =~= seq![entry_view]);
        record_cache.set::<Vec<AnyMap>>(
            "account".to_string(),
            target_dates[j].clone(),
            target_account_id.clone(),
            list,
        );
        proof {
            lemma_single_set_visit(cur, record_cache@, "account"@, target_dates@[j as int]@, target_account_id@, entry_view);
            lemma_set_dates(
                m3,
                cur,
                record_cache@,
                "account"@,
                target_account_id@,
                dates.take(j as int),
                seq![target_dates@[j as int]@],
                entry_view,
            );
            assert(dates.take(j as int) + seq![target_dates@[j as int]@] =~= dates.take(j + 1));
        }
        j = j + 1;
    }
    assert(dates.take(target_dates@.len() as int) =~= dates);
    assert(lists_grown(rc0, m1, "profit"@, text_views(profit_ids@), dates, account_entry_view(*rec, true)));
    assert(lists_grown(m1, m2, "group"@, text_views(group_ids@), dates, entry_view));
    assert(target_category_id@ == category_key(*rec));
    assert(lists_grown(m2, m3, "category"@, seq![category_key(*rec)], dates, entry_view));
}

/// Puts one account into the record cache, as `account_cached` says, with the
/// texts of the elements of its profit and group JSON arrays. Where either is not
/// a JSON array, nothing changes and the result is `false`.
pub fn cache_account_record(record_cache: &mut Records, rec: &AccountRecord, target_dates: &Vec<String>) -> (r: bool)
    requires
        rec.profit_id_array is Some,
        rec.group_id_array is Some,
        target_dates@.len() > 0 ==> account_fields_present(*rec),
    ensures
        r == (json_array_item_texts(json_view(rec.profit_id_array->0)) is Some && json_array_item_texts(
            json_view(rec.group_id_array->0),
        ) is Some),
        r ==> account_cached(
            old(record_cache)@,
            final(record_cache)@,
            *rec,
            json_array_item_texts(json_view(rec.profit_id_array->0))->0,
            json_array_item_texts(json_view(rec.group_id_array->0))->0,
            text_views(target_dates@),
        ),
        !r ==> final(record_cache)@ == old(record_cache)@,
{
    let profit_ids = match json_array_items(rec.profit_id_array.as_ref().unwrap()) {
        Some(items) => items,
        None => return false,
    };
    let group_ids = match json_array_items(rec.group_id_array.as_ref().unwrap()) {
        Some(items) => items,
        None => return false,
    };
    cache_account_items(record_cache, rec, &profit_ids, &group_ids, target_dates);
    true
}

} // verus!

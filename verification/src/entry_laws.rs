//! What the entries the caches make hold, and what the formulas take from them,
//! field by field.
use vstd::prelude::*;

use crate::any_map::{has_table, lookup3, put3_list, put3_table, table_at, AnyMap};
use crate::cache_build::{
    account_cached, account_entry_view, account_unit_base, account_unit_key, budget_cached, budget_view,
    category_key, opt_id_text, opt_uuid_text, placeholder_budget_view, placeholder_row_view, row_budget_view,
    row_cached, row_view, AccountRecord, BudgetRecord, PendingAdd, RowRecord,
};
use crate::formula_input::{last_uncalculated_budget_id, takes_row_formula, uncalculated_forecasts};
use crate::list_growth::{count_of, date_grown, list_base, lists_grown, lists_set, repeated};
use crate::text::decimal_text;
use crate::value::{F64Bits, Value};

verus! {

/// Whether `m` holds `true` under "calculated".
pub open spec fn says_calculated(m: Map<Seq<char>, Value>) -> bool {
    m.contains_key("calculated"@) && m["calculated"@] == Value::Bool(true)
}

/// The budget formula takes, from each record not marked calculated and in the
/// order of the list, exactly the number stored under "forecast", whatever else
/// the record holds (a "budget" among them), and the "budget_id" of the last
/// such record; a record marked calculated adds nothing and leaves the id; an
/// empty list gives no forecasts and the id 0.
pub proof fn law_budget_formula_takes_forecasts(
    rs: Seq<Map<Seq<char>, Value>>,
    rec: Map<Seq<char>, Value>,
    forecast: F64Bits,
    budget_id: i64,
)
    ensures
        uncalculated_forecasts(Seq::empty()) == Seq::<F64Bits>::empty(),
        last_uncalculated_budget_id(Seq::empty()) == 0,
        says_calculated(rec) ==> uncalculated_forecasts(rs.push(rec)) == uncalculated_forecasts(rs)
            && last_uncalculated_budget_id(rs.push(rec)) == last_uncalculated_budget_id(rs),
        !says_calculated(rec) && rec.contains_key("forecast"@) && rec["forecast"@] == Value::Float(
            forecast,
        ) ==> uncalculated_forecasts(rs.push(rec)) == uncalculated_forecasts(rs).push(forecast),
        !says_calculated(rec) && rec.contains_key("budget_id"@) && rec["budget_id"@] == Value::I64(
            budget_id,
        ) ==> last_uncalculated_budget_id(rs.push(rec)) == budget_id,
{
    assert(rs.push(rec).drop_last() =~= rs);
    assert(rs.push(rec).last() == rec);
}

/// The row formula applies to a record exactly when the record does not hold
/// `true` under "calculated" and holds a JSON text under "formula_json"; no
/// other entry of the record matters, so two records that agree on those two
/// entries get the same answer.
pub proof fn law_row_formula_reads_two_entries(rec: Map<Seq<char>, Value>, other: Map<Seq<char>, Value>)
    ensures
        takes_row_formula(rec) <==> !says_calculated(rec) && rec.contains_key("formula_json"@)
            && rec["formula_json"@] is Json,
        (rec.contains_key("calculated"@) <==> other.contains_key("calculated"@)) && (rec.contains_key(
            "calculated"@,
        ) ==> rec["calculated"@] == other["calculated"@]) && (rec.contains_key("formula_json"@)
            <==> other.contains_key("formula_json"@)) && (rec.contains_key("formula_json"@)
            ==> rec["formula_json"@] == other["formula_json"@]) ==> takes_row_formula(rec)
            == takes_row_formula(other),
{
}

/// The contents of the map under `k`, in the map under `d`, in the map under `t`.
pub open spec fn map_at(m: Map<Seq<char>, Value>, t: Seq<char>, d: Seq<char>, k: Seq<char>) -> Map<
    Seq<char>,
    Value,
> {
    table_at(table_at(table_at(m, t), d), k)
}

/// The record a row not yet calculated leaves in the record cache, under "row",
/// its date and its id, holds the row's own id, date, value, formula and
/// not-aggregate flag, and is marked not calculated.
pub proof fn law_row_record_holds_the_rows_fields(
    old_budget_row: Map<Seq<char>, Value>,
    new_budget_row: Map<Seq<char>, Value>,
    old_calculated: Map<Seq<char>, Value>,
    new_calculated: Map<Seq<char>, Value>,
    old_records: Map<Seq<char>, Value>,
    new_records: Map<Seq<char>, Value>,
    rec: RowRecord,
    row_date: Seq<char>,
    is_not_aggregate_arg: bool,
    r: Option<PendingAdd>,
)
    requires
        row_cached(
            old_budget_row,
            new_budget_row,
            old_calculated,
            new_calculated,
            old_records,
            new_records,
            rec,
            row_date,
            is_not_aggregate_arg,
            r,
        ),
        rec.calculated == Some(false),
    ensures
        ({
            let key = decimal_text(rec.row_id as int);
            let m = map_at(new_records, "row"@, row_date, key);
            &&& has_table(table_at(table_at(new_records, "row"@), row_date), key)
            &&& m.contains_key("row_id"@) && m["row_id"@] == Value::I64(rec.row_id)
            &&& m.contains_key("date"@) && m["date"@] == Value::Day(rec.date)
            &&& m.contains_key("value"@) && m["value"@] == Value::Float(rec.value->0)
            &&& m.contains_key("calculated"@) && m["calculated"@] == Value::Bool(false)
            &&& m.contains_key("formula_json"@) && m["formula_json"@] == Value::Json(rec.formula_json->0)
            &&& m.contains_key("is_not_aggregate"@) && m["is_not_aggregate"@] == Value::Bool(
                rec.is_not_aggregate->0,
            )
        }),
{
    let key = decimal_text(rec.row_id as int);
    assert(map_at(new_records, "row"@, row_date, key) == row_view(rec));
    reveal_strlit("row_id");
    reveal_strlit("date");
    reveal_strlit("value");
    reveal_strlit("calculated");
    reveal_strlit("formula_json");
    reveal_strlit("is_not_aggregate");
    assert("row_id"@.len() == 6);
    assert("date"@.len() == 4);
    assert("value"@.len() == 5);
    assert("calculated"@.len() == 10);
    assert("formula_json"@.len() == 12);
    assert("is_not_aggregate"@.len() == 16);
}

/// The record a row not yet calculated leaves in the record cache is the same
/// whatever the program's not-aggregate argument is.
pub proof fn law_row_record_ignores_the_argument(
    old_budget_row: Map<Seq<char>, Value>,
    new_budget_row1: Map<Seq<char>, Value>,
    new_budget_row2: Map<Seq<char>, Value>,
    old_calculated: Map<Seq<char>, Value>,
    new_calculated1: Map<Seq<char>, Value>,
    new_calculated2: Map<Seq<char>, Value>,
    old_records: Map<Seq<char>, Value>,
    new_records1: Map<Seq<char>, Value>,
    new_records2: Map<Seq<char>, Value>,
    rec: RowRecord,
    row_date: Seq<char>,
    arg1: bool,
    arg2: bool,
    r1: Option<PendingAdd>,
    r2: Option<PendingAdd>,
)
    requires
        row_cached(
            old_budget_row,
            new_budget_row1,
            old_calculated,
            new_calculated1,
            old_records,
            new_records1,
            rec,
            row_date,
            arg1,
            r1,
        ),
        row_cached(
            old_budget_row,
            new_budget_row2,
            old_calculated,
            new_calculated2,
            old_records,
            new_records2,
            rec,
            row_date,
            arg2,
            r2,
        ),
        rec.calculated == Some(false),
    ensures
        map_at(new_records1, "row"@, row_date, decimal_text(rec.row_id as int)) == map_at(
            new_records2,
            "row"@,
            row_date,
            decimal_text(rec.row_id as int),
        ),
{
}

/// `m` holds the budget row's own id, date, budget (0 where it has none),
/// forecast and achievement, and `false` under "calculated".
pub open spec fn holds_budget_fields(m: Map<Seq<char>, Value>, rec: BudgetRecord) -> bool {
    &&& m.contains_key("budget_id"@) && m["budget_id"@] == Value::I64(rec.budget_id)
    &&& m.contains_key("date"@) && m["date"@] == Value::Day(rec.date)
    &&& m.contains_key("budget"@) && m["budget"@] == Value::Float(
        match rec.budget {
            Some(b) => b,
            None => F64Bits(0u64),
        },
    )
    &&& m.contains_key("forecast"@) && m["forecast"@] == Value::Float(rec.forecast->0)
    &&& m.contains_key("achievement"@) && m["achievement"@] == Value::Float(rec.achievement->0)
    &&& m.contains_key("calculated"@) && m["calculated"@] == Value::Bool(false)
}

/// A budget row not yet calculated leaves, under "budget", its date and its id
/// in the record cache, and as the last entry of its account and unit's list,
/// a record that holds the row's own id, date, budget (0 where it has none),
/// forecast and achievement, marked not calculated.
pub proof fn law_budget_entry_holds_the_rows_fields(
    old_calculated: Map<Seq<char>, Value>,
    new_calculated: Map<Seq<char>, Value>,
    old_records: Map<Seq<char>, Value>,
    new_records: Map<Seq<char>, Value>,
    rec: BudgetRecord,
    budget_date: Seq<char>,
    is_not_aggregate_arg: bool,
    r: Option<PendingAdd>,
)
    requires
        budget_cached(
            old_calculated,
            new_calculated,
            old_records,
            new_records,
            rec,
            budget_date,
            is_not_aggregate_arg,
            r,
        ),
        rec.calculated == Some(false),
    ensures
        has_table(table_at(table_at(new_records, "budget"@), budget_date), decimal_text(rec.budget_id as int)),
        list_base(table_at(table_at(new_records, "account_unit"@), budget_date), account_unit_key(rec)).len() > 0,
        holds_budget_fields(
            map_at(new_records, "budget"@, budget_date, decimal_text(rec.budget_id as int)),
            rec,
        ),
        holds_budget_fields(
            list_base(table_at(table_at(new_records, "account_unit"@), budget_date), account_unit_key(rec)).last(),
            rec,
        ),
{
    reveal_strlit("budget");
    reveal_strlit("account_unit");
    reveal_strlit("budget_id");
    reveal_strlit("date");
    reveal_strlit("forecast");
    reveal_strlit("achievement");
    reveal_strlit("calculated");
    assert("budget"@.len() == 6);
    assert("account_unit"@.len() == 12);
    assert("budget_id"@.len() == 9);
    assert("date"@.len() == 4);
    assert("forecast"@.len() == 8);
    assert("achievement"@.len() == 11);
    assert("calculated"@.len() == 10);
    let key = decimal_text(rec.budget_id as int);
    let unit_key = account_unit_key(rec);
    let mid = choose|mid: Map<Seq<char>, Value>|
        put3_list(
            old_records,
            mid,
            "account_unit"@,
            budget_date,
            unit_key,
            account_unit_base(old_records, rec, budget_date).push(budget_view(rec)),
        ) && #[trigger] put3_table(mid, new_records, "budget"@, budget_date, key, budget_view(rec));
    assert(map_at(new_records, "budget"@, budget_date, key) == budget_view(rec));
    assert(table_at(new_records, "account_unit"@) == table_at(mid, "account_unit"@));
    assert(list_base(table_at(table_at(mid, "account_unit"@), budget_date), unit_key) == account_unit_base(
        old_records,
        rec,
        budget_date,
    ).push(budget_view(rec)));
}

/// `m` holds the account's own id, category, coefficient (as it is, absent or
/// not, where `optional_coefficient`), group ids JSON and profit ids JSON.
pub open spec fn holds_account_fields(m: Map<Seq<char>, Value>, rec: AccountRecord, optional_coefficient: bool) -> bool {
    &&& m.contains_key("account_id"@) && m["account_id"@] == Value::Uuid(rec.account_id->0)
    &&& m.contains_key("category_id"@) && m["category_id"@] == Value::I32(rec.category_id->0)
    &&& m.contains_key("coefficient"@) && m["coefficient"@] == if optional_coefficient {
        Value::MaybeI32(rec.coefficient)
    } else {
        Value::I32(rec.coefficient->0)
    }
    &&& m.contains_key("group_id_array"@) && m["group_id_array"@] == Value::Json(rec.group_id_array->0)
    &&& m.contains_key("profit_id_array"@) && m["profit_id_array"@] == Value::Json(rec.profit_id_array->0)
}

proof fn lemma_count_positive(s: Seq<Seq<char>>, x: Seq<char>)
    requires
        s.contains(x),
    ensures
        count_of(s, x) >= 1,
    decreases s.len(),
{
    if s.last() != x {
        let i = choose|i: int| 0 <= i < s.len() && s[i] == x;
        assert(i != s.len() - 1);
        assert(s.drop_last()[i] == x);
        lemma_count_positive(s.drop_last(), x);
    }
}

/// After a growth of the lists of `keys` under `kind` at `dates`, the list of
/// each of those keys at each of those dates ends with `entry`.
proof fn lemma_grown_ends_with(
    old: Map<Seq<char>, Value>,
    new: Map<Seq<char>, Value>,
    kind: Seq<char>,
    keys: Seq<Seq<char>>,
    dates: Seq<Seq<char>>,
    entry: Map<Seq<char>, Value>,
    d: Seq<char>,
    k: Seq<char>,
)
    requires
        lists_grown(old, new, kind, keys, dates, entry),
        keys.contains(k),
        dates.contains(d),
    ensures
        list_base(table_at(table_at(new, kind), d), k).len() > 0,
        list_base(table_at(table_at(new, kind), d), k).last() == entry,
{
    let od = table_at(table_at(old, kind), d);
    let nd = table_at(table_at(new, kind), d);
    let times = count_of(dates, d);
    assert(date_grown(od, nd, keys, entry, times));
    let c = count_of(keys, k);
    lemma_count_positive(keys, k);
    lemma_count_positive(dates, d);
    assert(c * times >= 1) by (nonlinear_arith)
        requires
            c >= 1,
            times >= 1,
    ;
    let tail = repeated(entry, c * times);
    assert(list_base(nd, k) == list_base(od, k) + tail);
    assert(tail.last() == entry);
    assert((list_base(od, k) + tail).last() == tail.last());
}

/// Each list an account joins at each of its dates (that of each of its
/// profits, of each of its groups and of its category) ends with an entry that
/// holds the account's own id, category, coefficient, group ids JSON and profit
/// ids JSON, and the list of the account itself is that entry alone.
pub proof fn law_account_entries_hold_the_accounts_fields(
    old: Map<Seq<char>, Value>,
    new: Map<Seq<char>, Value>,
    rec: AccountRecord,
    profit_ids: Seq<Seq<char>>,
    group_ids: Seq<Seq<char>>,
    dates: Seq<Seq<char>>,
    d: Seq<char>,
    p: Seq<char>,
    g: Seq<char>,
)
    requires
        account_cached(old, new, rec, profit_ids, group_ids, dates),
        dates.contains(d),
    ensures
        profit_ids.contains(p) ==> list_base(table_at(table_at(new, "profit"@), d), p).len() > 0
            && holds_account_fields(list_base(table_at(table_at(new, "profit"@), d), p).last(), rec, true),
        group_ids.contains(g) ==> list_base(table_at(table_at(new, "group"@), d), g).len() > 0
            && holds_account_fields(list_base(table_at(table_at(new, "group"@), d), g).last(), rec, false),
        list_base(table_at(table_at(new, "category"@), d), category_key(rec)).len() > 0,
        holds_account_fields(
            list_base(table_at(table_at(new, "category"@), d), category_key(rec)).last(),
            rec,
            false,
        ),
        list_base(table_at(table_at(new, "account"@), d), opt_uuid_text(rec.account_id)).len() == 1,
        holds_account_fields(
            list_base(table_at(table_at(new, "account"@), d), opt_uuid_text(rec.account_id))[0],
            rec,
            false,
        ),
{
    reveal_strlit("profit");
    reveal_strlit("group");
    reveal_strlit("category");
    reveal_strlit("account");
    assert("profit"@.len() == 6);
    assert("group"@.len() == 5);
    assert("category"@.len() == 8);
    assert("account"@.len() == 7);
    reveal_strlit("account_id");
    reveal_strlit("category_id");
    reveal_strlit("coefficient");
    reveal_strlit("group_id_array");
    reveal_strlit("profit_id_array");
    assert("account_id"@.len() == 10);
    assert("category_id"@.len() == 11);
    assert("coefficient"@.len() == 11);
    assert("category_id"@[1] != "coefficient"@[1]);
    assert("group_id_array"@.len() == 14);
    assert("profit_id_array"@.len() == 15);
    let (m1, m2, m3) = choose|m1: Map<Seq<char>, Value>, m2: Map<Seq<char>, Value>, m3: Map<Seq<char>, Value>|
        #[trigger] lists_grown(old, m1, "profit"@, profit_ids, dates, account_entry_view(rec, true))
            && #[trigger] lists_grown(m1, m2, "group"@, group_ids, dates, account_entry_view(rec, false))
            && #[trigger] lists_grown(
            m2,
            m3,
            "category"@,
            seq![category_key(rec)],
            dates,
            account_entry_view(rec, false),
        ) && lists_set(m3, new, "account"@, opt_uuid_text(rec.account_id), dates, account_entry_view(rec, false));
    let tv = account_entry_view(rec, true);
    let fv = account_entry_view(rec, false);
    assert(holds_account_fields(tv, rec, true));
    assert(holds_account_fields(fv, rec, false));
    assert(table_at(new, "profit"@) == table_at(m1, "profit"@));
    assert(table_at(new, "group"@) == table_at(m2, "group"@));
    assert(table_at(new, "category"@) == table_at(m3, "category"@));
    if profit_ids.contains(p) {
        lemma_grown_ends_with(old, m1, "profit"@, profit_ids, dates, tv, d, p);
    }
    if group_ids.contains(g) {
        lemma_grown_ends_with(m1, m2, "group"@, group_ids, dates, fv, d, g);
    }
    assert(seq![category_key(rec)][0] == category_key(rec));
    lemma_grown_ends_with(m2, m3, "category"@, seq![category_key(rec)], dates, fv, d, category_key(rec));
    assert(list_base(table_at(table_at(new, "account"@), d), opt_uuid_text(rec.account_id)) == seq![fv]);
}

/// `m` holds the row's own id, date and value, and `false` under "calculated".
pub open spec fn holds_row_fields(m: Map<Seq<char>, Value>, rec: RowRecord) -> bool {
    &&& m.contains_key("row_id"@) && m["row_id"@] == Value::I64(rec.row_id)
    &&& m.contains_key("date"@) && m["date"@] == Value::Day(rec.date)
    &&& m.contains_key("value"@) && m["value"@] == Value::Float(rec.value->0)
    &&& m.contains_key("calculated"@) && m["calculated"@] == Value::Bool(false)
}

/// `m` stands for the rows already calculated at the row's date: id -1, value 0,
/// marked calculated.
pub open spec fn holds_row_placeholder(m: Map<Seq<char>, Value>, rec: RowRecord) -> bool {
    &&& m.contains_key("row_id"@) && m["row_id"@] == Value::I64(-1i64)
    &&& m.contains_key("date"@) && m["date"@] == Value::Day(rec.date)
    &&& m.contains_key("value"@) && m["value"@] == Value::Float(F64Bits(0u64))
    &&& m.contains_key("calculated"@) && m["calculated"@] == Value::Bool(true)
}

/// A row whose budget has no map at its date gives the budget a new list of
/// rows: the placeholder, then, for a row not yet calculated that counts into
/// the total (neither the program's nor the row's not-aggregate flag is set),
/// an entry with the row's own id, date and value.
pub proof fn law_row_starts_its_budgets_list(
    old_budget_row: Map<Seq<char>, Value>,
    new_budget_row: Map<Seq<char>, Value>,
    old_calculated: Map<Seq<char>, Value>,
    new_calculated: Map<Seq<char>, Value>,
    old_records: Map<Seq<char>, Value>,
    new_records: Map<Seq<char>, Value>,
    rec: RowRecord,
    row_date: Seq<char>,
    is_not_aggregate_arg: bool,
    r: Option<PendingAdd>,
)
    requires
        row_cached(
            old_budget_row,
            new_budget_row,
            old_calculated,
            new_calculated,
            old_records,
            new_records,
            rec,
            row_date,
            is_not_aggregate_arg,
            r,
        ),
        !has_table(table_at(old_budget_row, row_date), opt_id_text(rec.budget_id)),
        rec.calculated is Some,
        rec.is_not_aggregate is Some || is_not_aggregate_arg,
    ensures
        ({
            let list = list_base(table_at(new_budget_row, row_date), opt_id_text(rec.budget_id));
            let joins = rec.calculated == Some(false) && !is_not_aggregate_arg && rec.is_not_aggregate
                == Some(false);
            &&& list.len() == if joins {
                2int
            } else {
                1int
            }
            &&& holds_row_placeholder(list[0], rec)
            &&& joins ==> holds_row_fields(list[1], rec)
        }),
{
    reveal_strlit("row_id");
    reveal_strlit("date");
    reveal_strlit("value");
    reveal_strlit("calculated");
    assert("row_id"@.len() == 6);
    assert("date"@.len() == 4);
    assert("value"@.len() == 5);
    assert("calculated"@.len() == 10);
    let list = list_base(table_at(new_budget_row, row_date), opt_id_text(rec.budget_id));
    assert(holds_row_placeholder(placeholder_row_view(rec.date), rec));
    if rec.calculated == Some(false) && !is_not_aggregate_arg && rec.is_not_aggregate == Some(false) {
        assert(list == seq![placeholder_row_view(rec.date), row_budget_view(rec)]);
        assert(holds_row_fields(row_budget_view(rec), rec));
    } else {
        assert(list == seq![placeholder_row_view(rec.date)]);
    }
}

/// A calculated row stores its value in the calculated cache under "row", its
/// date and its id (where that cache holds a map under "row"), leaves the
/// record cache as it was, and hands back the addition of its value to its
/// budget's total at its date exactly when it counts into the total; a row not
/// yet calculated leaves the calculated cache as it was and hands back nothing.
pub proof fn law_row_value_and_addition(
    old_budget_row: Map<Seq<char>, Value>,
    new_budget_row: Map<Seq<char>, Value>,
    old_calculated: Map<Seq<char>, Value>,
    new_calculated: Map<Seq<char>, Value>,
    old_records: Map<Seq<char>, Value>,
    new_records: Map<Seq<char>, Value>,
    rec: RowRecord,
    row_date: Seq<char>,
    is_not_aggregate_arg: bool,
    r: Option<PendingAdd>,
)
    requires
        row_cached(
            old_budget_row,
            new_budget_row,
            old_calculated,
            new_calculated,
            old_records,
            new_records,
            rec,
            row_date,
            is_not_aggregate_arg,
            r,
        ),
        rec.calculated is Some,
        rec.is_not_aggregate is Some,
    ensures
        rec.calculated == Some(true) ==> {
            &&& new_records == old_records
            &&& has_table(old_calculated, "row"@) ==> lookup3::<F64Bits>(
                new_calculated,
                "row"@,
                row_date,
                decimal_text(rec.row_id as int),
            ) == Some(rec.value->0)
            &&& (r is Some <==> !is_not_aggregate_arg && rec.is_not_aggregate == Some(false))
            &&& r is Some ==> r->0.amount == rec.value->0 && r->0.date@ == row_date && r->0.key@
                == opt_id_text(rec.budget_id)
        },
        rec.calculated == Some(false) ==> new_calculated == old_calculated && r is None,
{
}

/// `m` stands for the budget rows already calculated at the row's date: id -1,
/// every amount 0, marked calculated.
pub open spec fn holds_budget_placeholder(m: Map<Seq<char>, Value>, rec: BudgetRecord) -> bool {
    &&& m.contains_key("budget_id"@) && m["budget_id"@] == Value::I64(-1i64)
    &&& m.contains_key("date"@) && m["date"@] == Value::Day(rec.date)
    &&& m.contains_key("value"@) && m["value"@] == Value::Float(F64Bits(0u64))
    &&& m.contains_key("budget"@) && m["budget"@] == Value::Float(F64Bits(0u64))
    &&& m.contains_key("forecast"@) && m["forecast"@] == Value::Float(F64Bits(0u64))
    &&& m.contains_key("achievement"@) && m["achievement"@] == Value::Float(F64Bits(0u64))
    &&& m.contains_key("calculated"@) && m["calculated"@] == Value::Bool(true)
}

/// A budget row whose account and unit have no list at its date gives them a
/// list that starts with the placeholder, followed by the row's own entry where
/// the row is not yet calculated.
pub proof fn law_budget_starts_its_account_units_list(
    old_calculated: Map<Seq<char>, Value>,
    new_calculated: Map<Seq<char>, Value>,
    old_records: Map<Seq<char>, Value>,
    new_records: Map<Seq<char>, Value>,
    rec: BudgetRecord,
    budget_date: Seq<char>,
    is_not_aggregate_arg: bool,
    r: Option<PendingAdd>,
)
    requires
        budget_cached(
            old_calculated,
            new_calculated,
            old_records,
            new_records,
            rec,
            budget_date,
            is_not_aggregate_arg,
            r,
        ),
        lookup3::<Vec<AnyMap>>(old_records, "account_unit"@, budget_date, account_unit_key(rec)) is None,
        rec.calculated is Some,
    ensures
        ({
            let list = list_base(table_at(table_at(new_records, "account_unit"@), budget_date), account_unit_key(rec));
            &&& list.len() == if rec.calculated == Some(false) {
                2int
            } else {
                1int
            }
            &&& holds_budget_placeholder(list[0], rec)
            &&& rec.calculated == Some(false) ==> holds_budget_fields(list[1], rec)
        }),
{
    reveal_strlit("budget");
    reveal_strlit("account_unit");
    reveal_strlit("budget_id");
    reveal_strlit("date");
    reveal_strlit("value");
    reveal_strlit("forecast");
    reveal_strlit("achievement");
    reveal_strlit("calculated");
    assert("budget"@.len() == 6);
    assert("account_unit"@.len() == 12);
    assert("budget_id"@.len() == 9);
    assert("date"@.len() == 4);
    assert("value"@.len() == 5);
    assert("forecast"@.len() == 8);
    assert("achievement"@.len() == 11);
    assert("calculated"@.len() == 10);
    let key = decimal_text(rec.budget_id as int);
    let unit_key = account_unit_key(rec);
    let base = account_unit_base(old_records, rec, budget_date);
    assert(base == seq![placeholder_budget_view(rec.date)]);
    assert(holds_budget_placeholder(placeholder_budget_view(rec.date), rec));
    let list = list_base(table_at(table_at(new_records, "account_unit"@), budget_date), unit_key);
    if rec.calculated == Some(false) {
        let mid = choose|mid: Map<Seq<char>, Value>|
            put3_list(old_records, mid, "account_unit"@, budget_date, unit_key, base.push(budget_view(rec)))
                && #[trigger] put3_table(mid, new_records, "budget"@, budget_date, key, budget_view(rec));
        assert(table_at(new_records, "account_unit"@) == table_at(mid, "account_unit"@));
        assert(list == base.push(budget_view(rec)));
        assert(holds_budget_fields(budget_view(rec), rec));
    } else {
        assert(list == base);
    }
}

/// A calculated budget row stores in the calculated cache, under "budget", its
/// date and its id (where that cache holds a map under "budget"), its budget,
/// or its forecast where it has no budget, and hands back the addition of that
/// amount to its account and unit's total exactly when the program's
/// not-aggregate flag is not set; a row not yet calculated leaves the
/// calculated cache as it was and hands back nothing.
pub proof fn law_budget_value_and_addition(
    old_calculated: Map<Seq<char>, Value>,
    new_calculated: Map<Seq<char>, Value>,
    old_records: Map<Seq<char>, Value>,
    new_records: Map<Seq<char>, Value>,
    rec: BudgetRecord,
    budget_date: Seq<char>,
    is_not_aggregate_arg: bool,
    r: Option<PendingAdd>,
)
    requires
        budget_cached(
            old_calculated,
            new_calculated,
            old_records,
            new_records,
            rec,
            budget_date,
            is_not_aggregate_arg,
            r,
        ),
        rec.calculated is Some,
    ensures
        ({
            let amount = match rec.budget {
                Some(b) => b,
                None => rec.forecast->0,
            };
            rec.calculated == Some(true) ==> {
                &&& has_table(old_calculated, "budget"@) ==> lookup3::<F64Bits>(
                    new_calculated,
                    "budget"@,
                    budget_date,
                    decimal_text(rec.budget_id as int),
                ) == Some(amount)
                &&& (r is Some <==> !is_not_aggregate_arg)
                &&& r is Some ==> r->0.amount == amount && r->0.date@ == budget_date && r->0.key@
                    == account_unit_key(rec)
            }
        }),
        rec.calculated == Some(false) ==> new_calculated == old_calculated && r is None,
{
}

} // verus!

//! How lists of maps three levels down grow when the same entry is appended
//! to them for each of several keys and dates.
use vstd::prelude::*;

use crate::any_map::{has_table, holds_tables, put3_list, table_at, table_views, typed, AnyMap};
use crate::value::Value;

verus! {

/// How often `x` occurs in `s`.
pub open spec fn count_of(s: Seq<Seq<char>>, x: Seq<char>) -> nat
    decreases s.len(),
{
    if s.len() == 0 {
        0
    } else {
        count_of(s.drop_last(), x) + if s.last() == x {
            1nat
        } else {
            0nat
        }
    }
}

/// `n` copies of `entry`.
pub open spec fn repeated(entry: Map<Seq<char>, Value>, n: nat) -> Seq<Map<Seq<char>, Value>> {
    Seq::new(n, |i: int| entry)
}

/// The contents of the maps of the list under `k` in `m`; none where `k` holds
/// no list.
pub open spec fn list_base(m: Map<Seq<char>, Value>, k: Seq<char>) -> Seq<Map<Seq<char>, Value>> {
    match typed::<Vec<AnyMap>>(m, k) {
        Some(l) => table_views(l@),
        None => Seq::empty(),
    }
}

/// One date's map `new` is `old` with `entry` appended, `times` times for each
/// occurrence of a key in `keys`, to that key's list (a key that held no list
/// starting from an empty one); every other key as it was.
pub open spec fn date_grown(
    old: Map<Seq<char>, Value>,
    new: Map<Seq<char>, Value>,
    keys: Seq<Seq<char>>,
    entry: Map<Seq<char>, Value>,
    times: nat,
) -> bool {
    &&& new.dom() == old.dom().union(keys.to_set())
    &&& forall|k: Seq<char>| #[trigger] old.contains_key(k) && !keys.contains(k) ==> new[k] == old[k]
    &&& forall|k: Seq<char>| #[trigger] keys.contains(k) ==> holds_tables(
        new,
        k,
        list_base(old, k) + repeated(entry, count_of(keys, k) * times),
    )
}

/// `new` is `old` with `entry` appended, under `kind`, to the list of each key
/// of `keys` in the map of each date of `dates`, once for each pair of an
/// occurrence of the key and an occurrence of the date; maps that are missing
/// on the way are made, and everything else stays as it was.
pub open spec fn lists_grown(
    old: Map<Seq<char>, Value>,
    new: Map<Seq<char>, Value>,
    kind: Seq<char>,
    keys: Seq<Seq<char>>,
    dates: Seq<Seq<char>>,
    entry: Map<Seq<char>, Value>,
) -> bool {
    if keys.len() == 0 || dates.len() == 0 {
        new == old
    } else {
        &&& new == old.insert(kind, new[kind])
        &&& has_table(new, kind)
        &&& table_at(new, kind).dom() == table_at(old, kind).dom().union(dates.to_set())
        &&& forall|d: Seq<char>| #[trigger]
            table_at(old, kind).contains_key(d) && !dates.contains(d) ==> table_at(new, kind)[d]
                == table_at(old, kind)[d]
        &&& forall|d: Seq<char>| #[trigger]
            dates.contains(d) ==> has_table(table_at(new, kind), d) && date_grown(
                table_at(table_at(old, kind), d),
                table_at(table_at(new, kind), d),
                keys,
                entry,
                count_of(dates, d),
            )
    }
}

proof fn lemma_count_concat(a: Seq<Seq<char>>, b: Seq<Seq<char>>, x: Seq<char>)
    ensures
        count_of(a + b, x) == count_of(a, x) + count_of(b, x),
    decreases b.len(),
{
    if b.len() == 0 {
        assert(a + b =~= a);
    } else {
        lemma_count_concat(a, b.drop_last(), x);
        assert((a + b).drop_last() =~= a + b.drop_last());
        assert((a + b).last() == b.last());
    }
}

proof fn lemma_count_absent(s: Seq<Seq<char>>, x: Seq<char>)
    ensures
        !s.contains(x) ==> count_of(s, x) == 0,
    decreases s.len(),
{
    if s.len() > 0 {
        if !s.contains(x) {
            assert forall|i: int| 0 <= i < s.drop_last().len() implies s.drop_last()[i] != x by {
                assert(s[i] == s.drop_last()[i]);
            }
            lemma_count_absent(s.drop_last(), x);
            assert(s[s.len() - 1] == s.last());
        }
    }
}

proof fn lemma_single_count(x: Seq<char>, y: Seq<char>)
    ensures
        count_of(seq![x], y) == if x == y {
            1nat
        } else {
            0nat
        },
{
    assert(seq![x].drop_last() =~= Seq::<Seq<char>>::empty());
    assert(seq![x].last() == x);
    assert(count_of(Seq::<Seq<char>>::empty(), y) == 0);
}

proof fn lemma_concat_contains(a: Seq<Seq<char>>, b: Seq<Seq<char>>, x: Seq<char>)
    ensures
        (a + b).contains(x) <==> a.contains(x) || b.contains(x),
        (a + b).to_set().contains(x) <==> a.to_set().contains(x) || b.to_set().contains(x),
{
    if a.contains(x) {
        let i = choose|i: int| 0 <= i < a.len() && a[i] == x;
        assert((a + b)[i] == x);
    }
    if b.contains(x) {
        let i = choose|i: int| 0 <= i < b.len() && b[i] == x;
        assert((a + b)[a.len() + i] == x);
    }
    if (a + b).contains(x) {
        let i = choose|i: int| 0 <= i < (a + b).len() && (a + b)[i] == x;
        if i < a.len() {
            assert(a[i] == x);
        } else {
            assert(b[i - a.len()] == x);
        }
    }
}

proof fn lemma_repeated_add(e: Map<Seq<char>, Value>, a: nat, b: nat)
    ensures
        repeated(e, a) + repeated(e, b) == repeated(e, a + b),
{
    assert(repeated(e, a) + repeated(e, b) =~= repeated(e, a + b));
}

proof fn lemma_mul_add(c1: nat, c2: nat, m: nat)
    ensures
        c1 * m + c2 * m == (c1 + c2) * m,
        m * c1 + m * c2 == m * (c1 + c2),
{
    assert(c1 * m + c2 * m == (c1 + c2) * m) by (nonlinear_arith);
    assert(m * c1 + m * c2 == m * (c1 + c2)) by (nonlinear_arith);
}

/// A key that two growths leave alone, or that only one of them touches,
/// ends with the list the two make together.
proof fn lemma_list_base_of_grown(
    od: Map<Seq<char>, Value>,
    nd: Map<Seq<char>, Value>,
    keys: Seq<Seq<char>>,
    entry: Map<Seq<char>, Value>,
    times: nat,
    k: Seq<char>,
)
    requires
        date_grown(od, nd, keys, entry, times),
    ensures
        list_base(nd, k) == list_base(od, k) + repeated(entry, count_of(keys, k) * times),
{
    lemma_count_absent(keys, k);
    if keys.contains(k) {
    } else {
        assert(count_of(keys, k) * times == 0);
        assert(repeated(entry, 0) =~= Seq::<Map<Seq<char>, Value>>::empty());
        if od.contains_key(k) {
            assert(nd[k] == od[k]);
        } else {
            assert(!keys.to_set().contains(k));
            assert(!nd.contains_key(k));
        }
        assert(list_base(od, k) + Seq::<Map<Seq<char>, Value>>::empty() =~= list_base(od, k));
    }
}

proof fn lemma_date_keys_compose(
    a: Map<Seq<char>, Value>,
    b: Map<Seq<char>, Value>,
    c: Map<Seq<char>, Value>,
    k1: Seq<Seq<char>>,
    k2: Seq<Seq<char>>,
    entry: Map<Seq<char>, Value>,
    times: nat,
)
    requires
        date_grown(a, b, k1, entry, times),
        date_grown(b, c, k2, entry, times),
    ensures
        date_grown(a, c, k1 + k2, entry, times),
{
    assert forall|x: Seq<char>| #[trigger] c.contains_key(x) <==> a.dom().union((k1 + k2).to_set()).contains(x) by {
        lemma_concat_contains(k1, k2, x);
    }
    assert(c.dom() =~= a.dom().union((k1 + k2).to_set()));
    assert forall|x: Seq<char>| #[trigger] a.contains_key(x) && !(k1 + k2).contains(x) implies c[x] == a[x] by {
        lemma_concat_contains(k1, k2, x);
        assert(!k1.contains(x));
        assert(b.contains_key(x));
        assert(b[x] == a[x]);
        assert(!k2.contains(x));
    }
    assert forall|x: Seq<char>| #[trigger] (k1 + k2).contains(x) implies holds_tables(
        c,
        x,
        list_base(a, x) + repeated(entry, count_of(k1 + k2, x) * times),
    ) by {
        lemma_concat_contains(k1, k2, x);
        lemma_count_concat(k1, k2, x);
        lemma_list_base_of_grown(a, b, k1, entry, times, x);
        lemma_list_base_of_grown(b, c, k2, entry, times, x);
        lemma_mul_add(count_of(k1, x), count_of(k2, x), times);
        lemma_repeated_add(entry, count_of(k1, x) * times, count_of(k2, x) * times);
        assert(list_base(c, x) == list_base(a, x) + repeated(entry, count_of(k1 + k2, x) * times));
        if k2.contains(x) {
        } else {
            lemma_count_absent(k2, x);
            assert(b.contains_key(x));
            assert(c[x] == b[x]);
        }
    }
}

proof fn lemma_date_times_compose(
    a: Map<Seq<char>, Value>,
    b: Map<Seq<char>, Value>,
    c: Map<Seq<char>, Value>,
    keys: Seq<Seq<char>>,
    entry: Map<Seq<char>, Value>,
    t1: nat,
    t2: nat,
)
    requires
        date_grown(a, b, keys, entry, t1),
        date_grown(b, c, keys, entry, t2),
    ensures
        date_grown(a, c, keys, entry, t1 + t2),
{
    assert(c.dom() =~= a.dom().union(keys.to_set()));
    assert forall|x: Seq<char>| #[trigger] a.contains_key(x) && !keys.contains(x) implies c[x] == a[x] by {
        assert(b.contains_key(x));
    }
    assert forall|x: Seq<char>| #[trigger] keys.contains(x) implies holds_tables(
        c,
        x,
        list_base(a, x) + repeated(entry, count_of(keys, x) * (t1 + t2)),
    ) by {
        lemma_list_base_of_grown(a, b, keys, entry, t1, x);
        lemma_mul_add(t1, t2, count_of(keys, x));
        lemma_repeated_add(entry, count_of(keys, x) * t1, count_of(keys, x) * t2);
        assert(count_of(keys, x) * t1 + count_of(keys, x) * t2 == count_of(keys, x) * (t1 + t2));
        let base = list_base(a, x);
        let r1 = repeated(entry, count_of(keys, x) * t1);
        let r2 = repeated(entry, count_of(keys, x) * t2);
        assert(base + r1 + r2 =~= base + (r1 + r2));
    }
}

proof fn lemma_single_set(x: Seq<char>)
    ensures
        seq![x].to_set() == set![x],
        forall|y: Seq<char>| seq![x].contains(y) <==> y == x,
{
    assert forall|y: Seq<char>| seq![x].contains(y) <==> y == x by {
        if y == x {
            assert(seq![x][0] == y);
        }
    }
    assert(seq![x].to_set() =~= set![x]);
}

/// Appending `entry` once to the list under `k`, in the map under `d`, in the
/// map under `kind`, is growing the lists of the one key at the one date.
pub proof fn lemma_single_visit(
    cur: Map<Seq<char>, Value>,
    next: Map<Seq<char>, Value>,
    kind: Seq<char>,
    d: Seq<char>,
    k: Seq<char>,
    entry: Map<Seq<char>, Value>,
)
    requires
        put3_list(cur, next, kind, d, k, list_base(table_at(table_at(cur, kind), d), k).push(entry)),
    ensures
        lists_grown(cur, next, kind, seq![k], seq![d], entry),
{
    lemma_single_set(d);
    lemma_single_set(k);
    lemma_single_count(d, d);
    lemma_single_count(k, k);
    let cd = table_at(table_at(cur, kind), d);
    let nd = table_at(table_at(next, kind), d);
    assert(table_at(next, kind).dom() =~= table_at(cur, kind).dom().union(seq![d].to_set()));
    assert(nd.dom() =~= cd.dom().union(seq![k].to_set()));
    assert(repeated(entry, 1) =~= seq![entry]);
    assert(list_base(cd, k).push(entry) =~= list_base(cd, k) + repeated(entry, 1 * 1));
    assert(date_grown(cd, nd, seq![k], entry, count_of(seq![d], d)));
}

/// Growing the lists of the keys `k1`, then of the keys `k2`, at the same dates,
/// is growing the lists of the keys `k1 + k2`.
pub proof fn lemma_grow_keys(
    a: Map<Seq<char>, Value>,
    b: Map<Seq<char>, Value>,
    c: Map<Seq<char>, Value>,
    kind: Seq<char>,
    k1: Seq<Seq<char>>,
    k2: Seq<Seq<char>>,
    dates: Seq<Seq<char>>,
    entry: Map<Seq<char>, Value>,
)
    requires
        lists_grown(a, b, kind, k1, dates, entry),
        lists_grown(b, c, kind, k2, dates, entry),
    ensures
        lists_grown(a, c, kind, k1 + k2, dates, entry),
{
    if dates.len() == 0 {
    } else if k1.len() == 0 {
        assert(k1 + k2 =~= k2);
    } else if k2.len() == 0 {
        assert(k1 + k2 =~= k1);
    } else {
        let ta = table_at(a, kind);
        let tb = table_at(b, kind);
        let tc = table_at(c, kind);
        assert(c =~= a.insert(kind, c[kind]));
        assert(tc.dom() =~= ta.dom().union(dates.to_set()));
        assert forall|d: Seq<char>| #[trigger] ta.contains_key(d) && !dates.contains(d) implies tc[d] == ta[d] by {
            assert(tb.contains_key(d));
        }
        assert forall|d: Seq<char>| #[trigger] dates.contains(d) implies has_table(tc, d) && date_grown(
            table_at(ta, d),
            table_at(tc, d),
            k1 + k2,
            entry,
            count_of(dates, d),
        ) by {
            lemma_date_keys_compose(
                table_at(ta, d),
                table_at(tb, d),
                table_at(tc, d),
                k1,
                k2,
                entry,
                count_of(dates, d),
            );
        }
    }
}

/// Growing the lists of the keys at the dates `d1`, then at the dates `d2`, is
/// growing them at the dates `d1 + d2`.
pub proof fn lemma_grow_dates(
    a: Map<Seq<char>, Value>,
    b: Map<Seq<char>, Value>,
    c: Map<Seq<char>, Value>,
    kind: Seq<char>,
    keys: Seq<Seq<char>>,
    d1: Seq<Seq<char>>,
    d2: Seq<Seq<char>>,
    entry: Map<Seq<char>, Value>,
)
    requires
        lists_grown(a, b, kind, keys, d1, entry),
        lists_grown(b, c, kind, keys, d2, entry),
    ensures
        lists_grown(a, c, kind, keys, d1 + d2, entry),
{
    if keys.len() == 0 {
    } else if d1.len() == 0 {
        assert(d1 + d2 =~= d2);
    } else if d2.len() == 0 {
        assert(d1 + d2 =~= d1);
    } else {
        let ta = table_at(a, kind);
        let tb = table_at(b, kind);
        let tc = table_at(c, kind);
        assert(c =~= a.insert(kind, c[kind]));
        assert forall|x: Seq<char>| #[trigger] tc.contains_key(x) <==> ta.dom().union((d1 + d2).to_set()).contains(x) by {
            lemma_concat_contains(d1, d2, x);
        }
        assert(tc.dom() =~= ta.dom().union((d1 + d2).to_set()));
        assert forall|d: Seq<char>| #[trigger] ta.contains_key(d) && !(d1 + d2).contains(d) implies tc[d] == ta[d] by {
            lemma_concat_contains(d1, d2, d);
            assert(tb.contains_key(d));
        }
        assert forall|d: Seq<char>| #[trigger] (d1 + d2).contains(d) implies has_table(tc, d) && date_grown(
            table_at(ta, d),
            table_at(tc, d),
            keys,
            entry,
            count_of(d1 + d2, d),
        ) by {
            lemma_concat_contains(d1, d2, d);
            lemma_count_concat(d1, d2, d);
            lemma_count_absent(d1, d);
            lemma_count_absent(d2, d);
            if d2.contains(d) {
                if d1.contains(d) {
                    lemma_date_times_compose(
                        table_at(ta, d),
                        table_at(tb, d),
                        table_at(tc, d),
                        keys,
                        entry,
                        count_of(d1, d),
                        count_of(d2, d),
                    );
                } else {
                    if ta.contains_key(d) {
                        assert(tb[d] == ta[d]);
                    } else {
                        assert(!tb.contains_key(d));
                    }
                    assert(table_at(tb, d) == table_at(ta, d));
                }
            } else {
                assert(tb.contains_key(d));
                assert(tc[d] == tb[d]);
            }
        }
    }
}

/// `new` is `old` with a list of one map of contents `entry` put, under `kind`,
/// at `key` in the map of each date of `dates`, in place of what was there;
/// maps that are missing on the way are made, and everything else stays as it was.
pub open spec fn lists_set(
    old: Map<Seq<char>, Value>,
    new: Map<Seq<char>, Value>,
    kind: Seq<char>,
    key: Seq<char>,
    dates: Seq<Seq<char>>,
    entry: Map<Seq<char>, Value>,
) -> bool {
    if dates.len() == 0 {
        new == old
    } else {
        &&& new == old.insert(kind, new[kind])
        &&& has_table(new, kind)
        &&& table_at(new, kind).dom() == table_at(old, kind).dom().union(dates.to_set())
        &&& forall|d: Seq<char>| #[trigger]
            table_at(old, kind).contains_key(d) && !dates.contains(d) ==> table_at(new, kind)[d]
                == table_at(old, kind)[d]
        &&& forall|d: Seq<char>| #[trigger]
            dates.contains(d) ==> has_table(table_at(new, kind), d) && table_at(table_at(new, kind), d)
                == table_at(table_at(old, kind), d).insert(key, table_at(table_at(new, kind), d)[key])
                && holds_tables(table_at(table_at(new, kind), d), key, seq![entry])
    }
}

/// Putting the one-entry list at `key` under one date is `lists_set` at that date.
pub proof fn lemma_single_set_visit(
    cur: Map<Seq<char>, Value>,
    next: Map<Seq<char>, Value>,
    kind: Seq<char>,
    d: Seq<char>,
    key: Seq<char>,
    entry: Map<Seq<char>, Value>,
)
    requires
        put3_list(cur, next, kind, d, key, seq![entry]),
    ensures
        lists_set(cur, next, kind, key, seq![d], entry),
{
    lemma_single_set(d);
    assert(table_at(next, kind).dom() =~= table_at(cur, kind).dom().union(seq![d].to_set()));
}

/// Putting the one-entry lists at the dates `d1`, then at the dates `d2`, is
/// putting them at the dates `d1 + d2`.
pub proof fn lemma_set_dates(
    a: Map<Seq<char>, Value>,
    b: Map<Seq<char>, Value>,
    c: Map<Seq<char>, Value>,
    kind: Seq<char>,
    key: Seq<char>,
    d1: Seq<Seq<char>>,
    d2: Seq<Seq<char>>,
    entry: Map<Seq<char>, Value>,
)
    requires
        lists_set(a, b, kind, key, d1, entry),
        lists_set(b, c, kind, key, d2, entry),
    ensures
        lists_set(a, c, kind, key, d1 + d2, entry),
{
    if d1.len() == 0 {
        assert(d1 + d2 =~= d2);
    } else if d2.len() == 0 {
        assert(d1 + d2 =~= d1);
    } else {
        let ta = table_at(a, kind);
        let tb = table_at(b, kind);
        let tc = table_at(c, kind);
        assert(c =~= a.insert(kind, c[kind]));
        assert forall|x: Seq<char>| #[trigger] tc.contains_key(x) <==> ta.dom().union((d1 + d2).to_set()).contains(x) by {
            lemma_concat_contains(d1, d2, x);
        }
        assert(tc.dom() =~= ta.dom().union((d1 + d2).to_set()));
        assert forall|d: Seq<char>| #[trigger] ta.contains_key(d) && !(d1 + d2).contains(d) implies tc[d] == ta[d] by {
            lemma_concat_contains(d1, d2, d);
            assert(tb.contains_key(d));
        }
        assert forall|d: Seq<char>| #[trigger] (d1 + d2).contains(d) implies has_table(tc, d) && table_at(tc, d)
            == table_at(ta, d).insert(key, table_at(tc, d)[key]) && holds_tables(table_at(tc, d), key, seq![entry]) by {
            lemma_concat_contains(d1, d2, d);
            if d2.contains(d) {
                if d1.contains(d) {
                    assert(table_at(tc, d) =~= table_at(ta, d).insert(key, table_at(tc, d)[key]));
                } else {
                    if ta.contains_key(d) {
                        assert(tb[d] == ta[d]);
                    } else {
                        assert(!tb.contains_key(d));
                    }
                    assert(table_at(tb, d) == table_at(ta, d));
                }
            } else {
                assert(tb.contains_key(d));
                assert(tc[d] == tb[d]);
            }
        }
    }
}

} // verus!

//! What holds of the caches across their operations.
use vstd::prelude::*;

use crate::any_map::{has_table, lookup3, put3, table_at, typed, AnyMap};
use crate::calculated::entry_or_empty;
use crate::calculated_cache::{calculated_set, prepared};
use crate::value::{CalendarDay, F64Bits, JsonText, Stored, UuidValue, Value};

verus! {

/// A value stored in a map under a key is read back under that key with its
/// type, under that key nothing is read with a type of another variant, and
/// every other key reads as before.
pub proof fn law_read_after_write<T: Stored, U: Stored>(
    m: Map<Seq<char>, Value>,
    k: Seq<char>,
    v: T,
    other: Seq<char>,
)
    ensures
        typed::<T>(m.insert(k, T::as_value(v)), k) == Some(v),
        U::tag() != T::tag() ==> typed::<U>(m.insert(k, T::as_value(v)), k) is None,
        other != k ==> typed::<U>(m.insert(k, T::as_value(v)), other) == typed::<U>(m, other),
{
    T::lemma_round_trip(v);
    U::lemma_tag(T::as_value(v));
}

/// A value stored three levels down, as `Records::set` stores it, is read back
/// at its place with its type, nothing is read there with a type of another
/// variant, and every other place reads as before.
pub proof fn law_nested_read_after_write<T: Stored, U: Stored>(
    old: Map<Seq<char>, Value>,
    new: Map<Seq<char>, Value>,
    t: Seq<char>,
    d: Seq<char>,
    k: Seq<char>,
    v: T,
    t2: Seq<char>,
    d2: Seq<char>,
    k2: Seq<char>,
)
    requires
        put3(old, new, t, d, k, T::as_value(v)),
    ensures
        lookup3::<T>(new, t, d, k) == Some(v),
        U::tag() != T::tag() ==> lookup3::<U>(new, t, d, k) is None,
        !(t2 == t && d2 == d && k2 == k) ==> lookup3::<U>(new, t2, d2, k2) == lookup3::<U>(old, t2, d2, k2),
{
    T::lemma_round_trip(v);
    U::lemma_tag(T::as_value(v));
    if t2 != t {
        if old.contains_key(t2) {
            assert(new.contains_key(t2));
        } else {
            assert(!new.contains_key(t2));
        }
    } else if d2 != d {
        let nt = table_at(new, t);
        let ot = table_at(old, t);
        if ot.contains_key(d2) {
            assert(nt[d2] == ot[d2]);
        } else {
            assert(!nt.contains_key(d2));
        }
    } else if k2 != k {
    }
}

/// `Calculated::set` stores its value only where the type already holds a map;
/// under a type that holds none, nothing is read back.
pub proof fn law_calculated_set_needs_type<T: Stored>(
    old: Map<Seq<char>, Value>,
    new: Map<Seq<char>, Value>,
    t: Seq<char>,
    d: Seq<char>,
    k: Seq<char>,
    v: T,
)
    requires
        calculated_set(old, new, t, d, k, T::as_value(v)),
    ensures
        lookup3::<T>(new, t, d, k) == if has_table(old, t) {
            Some(v)
        } else {
            None
        },
{
    T::lemma_round_trip(v);
}

/// After `initialize`, each prepared kind holds a map, so that `Calculated::set`
/// under it stores its value, and nothing is read there with a type of another
/// variant.
pub proof fn law_set_after_initialize<T: Stored, U: Stored>(
    empty: Map<Seq<char>, Value>,
    ready: Map<Seq<char>, Value>,
    after: Map<Seq<char>, Value>,
    kinds: Seq<Seq<char>>,
    i: int,
    d: Seq<char>,
    k: Seq<char>,
    v: T,
)
    requires
        prepared(empty, ready, kinds),
        0 <= i < kinds.len(),
        calculated_set(ready, after, kinds[i], d, k, T::as_value(v)),
    ensures
        lookup3::<T>(after, kinds[i], d, k) == Some(v),
        U::tag() != T::tag() ==> lookup3::<U>(after, kinds[i], d, k) is None,
{
    T::lemma_round_trip(v);
    U::lemma_tag(T::as_value(v));
    assert(has_table(ready, kinds[i]));
}

/// The library's own stored types each have a variant of `Value` of their
/// own: their tags are pairwise distinct.
pub proof fn law_own_types_have_own_variants()
    ensures
        <AnyMap as Stored>::tag() == 0,
        <Vec<AnyMap> as Stored>::tag() == 1,
        <bool as Stored>::tag() == 2,
        <i32 as Stored>::tag() == 3,
        <i64 as Stored>::tag() == 4,
        <Option<i32> as Stored>::tag() == 5,
        <F64Bits as Stored>::tag() == 6,
        <CalendarDay as Stored>::tag() == 7,
        <UuidValue as Stored>::tag() == 8,
        <JsonText as Stored>::tag() == 9,
{
}

/// In the text cache, a value stored by `set` is read back at its place, and
/// every other place holds, or lacks, what it did before.
pub proof fn law_text_read_after_write(
    old: Map<Seq<char>, Map<Seq<char>, Map<Seq<char>, Seq<char>>>>,
    t: Seq<char>,
    d: Seq<char>,
    k: Seq<char>,
    v: Seq<char>,
    t2: Seq<char>,
    d2: Seq<char>,
    k2: Seq<char>,
)
    ensures
        ({
            let new = old.insert(
                t,
                entry_or_empty(old, t).insert(d, entry_or_empty(entry_or_empty(old, t), d).insert(k, v)),
            );
            &&& new[t][d][k] == v
            &&& !(t2 == t && d2 == d && k2 == k) ==> ((new.contains_key(t2) && new[t2].contains_key(d2)
                && new[t2][d2].contains_key(k2)) == (old.contains_key(t2) && old[t2].contains_key(d2)
                && old[t2][d2].contains_key(k2)))
            &&& !(t2 == t && d2 == d && k2 == k) && old.contains_key(t2) && old[t2].contains_key(d2)
                && old[t2][d2].contains_key(k2) ==> new[t2][d2][k2] == old[t2][d2][k2]
        }),
{
}

} // verus!

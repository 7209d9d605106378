//! The text forms of numbers, dates, UUIDs and JSON arrays that serve as keys.
use vstd::prelude::*;

use crate::value::{CalendarDay, JsonText, UuidValue};

verus! {

/// The decimal digit `d` (0 to 9) as a character.
pub open spec fn digit_char(d: int) -> char {
    (d + 48) as char
}

/// The decimal digits of `n`, most significant first, with no leading zeros.
pub open spec fn digits(n: nat) -> Seq<char>
    decreases n,
{
    if n < 10 {
        seq![digit_char(n as int)]
    } else {
        digits(n / 10).push(digit_char((n % 10) as int))
    }
}

/// `n` in decimal, with a leading `-` where it is negative.
pub open spec fn decimal_text(n: int) -> Seq<char> {
    if n < 0 {
        seq!['-'] + digits((-n) as nat)
    } else {
        digits(n as nat)
    }
}

/// The hexadecimal digit `d` (0 to 15) as a lower-case character.
pub open spec fn hex_char(d: int) -> char {
    if d < 10 {
        (d + 48) as char
    } else {
        (d + 87) as char
    }
}

/// The `i`-th of the 32 hexadecimal digits of `u`, most significant first.
pub open spec fn nibble(u: u128, i: int) -> int {
    ((u >> ((124 - 4 * i) as u128)) & 15u128) as int
}

/// The digit of a hyphenated UUID text that stands at position `p`.
pub open spec fn nibble_index(p: int) -> int {
    if p < 8 {
        p
    } else if p < 13 {
        p - 1
    } else if p < 18 {
        p - 2
    } else if p < 23 {
        p - 3
    } else {
        p - 4
    }
}

/// The hyphenated lower-case text of a UUID: its 32 hexadecimal digits in
/// groups of 8, 4, 4, 4 and 12, joined by `-`.
pub open spec fn uuid_hyphenated(u: u128) -> Seq<char> {
    Seq::new(
        36,
        |p: int|
            if p == 8 || p == 13 || p == 18 || p == 23 {
                '-'
            } else {
                hex_char(nibble(u, nibble_index(p)))
            },
    )
}

/// The `%Y-%m-%d` text that chrono gives the date with day number `days` (day 1
/// being January 1 of year 1), or nothing where chrono has no such date.
pub uninterp spec fn chrono_ymd_text(days: i32) -> Option<Seq<char>>;

/// The texts that serde_json gives the elements of the array that `text` is, in
/// order, or nothing where `text` is not a JSON array.
pub uninterp spec fn json_array_item_texts(text: Seq<char>) -> Option<Seq<Seq<char>>>;

/// `n` in decimal, as `i64`'s `Display` writes it.
#[verifier::external_body]
pub(crate) fn int_text(n: i64) -> (r: String)
    ensures
        r@ == decimal_text(n as int),
{
    n.to_string()
}

/// The text of `uuid::Uuid::from_u128(u)` as its `Display` writes it: the
/// hyphenated lower-case form.
#[verifier::external_body]
pub(crate) fn uuid_text(u: UuidValue) -> (r: String)
    ensures
        r@ == uuid_hyphenated(u.0),
{
    uuid::Uuid::from_u128(u.0).to_string()
}

/// The date with day number `day.0` from `chrono::NaiveDate::from_num_days_from_ce_opt`,
/// written with `format("%Y-%m-%d")`; nothing where chrono has no such date.
#[verifier::external_body]
pub(crate) fn day_text(day: CalendarDay) -> (r: Option<String>)
    ensures
        match r {
            Some(s) => chrono_ymd_text(day.0) == Some(s@),
            None => chrono_ymd_text(day.0) is None,
        },
{
    match chrono::NaiveDate::from_num_days_from_ce_opt(day.0) {
        Some(date) => Some(date.format("%Y-%m-%d").to_string()),
        None => None,
    }
}

/// `text` parsed by `serde_json::from_str` as a `serde_json::Value`; where that is an
/// array, the `to_string` texts of its elements, in order; else nothing.
#[verifier::external_body]
pub(crate) fn json_array_items(text: &JsonText) -> (r: Option<Vec<String>>)
    ensures
        match r {
            Some(items) => json_array_item_texts(text.0@) == Some(items@.map_values(|s: String| s@)),
            None => json_array_item_texts(text.0@) is None,
        },
{
    match serde_json::from_str::<serde_json::Value>(&text.0) {
        Ok(value) => match value.as_array() {
            Some(items) => Some(items.iter().map(|item| item.to_string()).collect()),
            None => None,
        },
        Err(_) => None,
    }
}

} // verus!

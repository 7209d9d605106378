//! The values an `AnyMap` can hold, and the typed access to them.
use vstd::prelude::*;

use crate::any_map::AnyMap;

verus! {

/// An IEEE-754 double held by its bit pattern; the library only stores and
/// moves such numbers, the arithmetic on them happens in the program around it.
#[derive(Clone, Copy, PartialEq, Eq, Debug)]
pub struct F64Bits(pub u64);

/// A calendar date, held as its day number in the proleptic Gregorian calendar
/// with January 1 of year 1 as day 1.
#[derive(Clone, Copy, PartialEq, Eq, Debug)]
pub struct CalendarDay(pub i32);

/// A UUID, held as its 128 bits with the first byte most significant.
#[derive(Clone, Copy, PartialEq, Eq, Debug)]
pub struct UuidValue(pub u128);

/// A JSON document, held as its text.
#[derive(Debug)]
pub struct JsonText(pub String);

/// One value of an `AnyMap`: the variant is the value's type.
#[derive(Debug)]
pub enum Value {
    Table(AnyMap),
    TableList(Vec<AnyMap>),
    Bool(bool),
    I32(i32),
    I64(i64),
    MaybeI32(Option<i32>),
    Float(F64Bits),
    Day(CalendarDay),
    Uuid(UuidValue),
    Json(JsonText),
}

/// The number of the variant of `v`, in the order of the declaration of `Value`.
pub open spec fn value_tag(v: Value) -> nat {
    match v {
        Value::Table(_) => 0,
        Value::TableList(_) => 1,
        Value::Bool(_) => 2,
        Value::I32(_) => 3,
        Value::I64(_) => 4,
        Value::MaybeI32(_) => 5,
        Value::Float(_) => 6,
        Value::Day(_) => 7,
        Value::Uuid(_) => 8,
        Value::Json(_) => 9,
    }
}

/// A type that an `AnyMap` can store: each such type has a variant of `Value`
/// of its own, so that a value read back under its type is the value stored.
pub trait Stored: Sized {
    /// The value of type `Self` that `v` holds, if `v` is of that type.
    spec fn stored_in(v: Value) -> Option<Self>;

    /// `self` as a `Value`.
    spec fn as_value(self) -> Value;

    /// The number of the variant of `Value` that holds values of this type.
    spec fn tag() -> nat;

    proof fn lemma_round_trip(x: Self)
        ensures
            Self::stored_in(Self::as_value(x)) == Some(x),
            value_tag(Self::as_value(x)) == Self::tag(),
    ;

    proof fn lemma_tag(v: Value)
        ensures
            Self::stored_in(v) is Some ==> value_tag(v) == Self::tag(),
    ;

    fn into_value(self) -> (v: Value)
        ensures
            v == Self::as_value(self),
    ;

    fn from_value_ref(v: &Value) -> (r: Option<&Self>)
        ensures
            r matches Some(x) ==> Self::stored_in(*v) == Some(*x),
            r is None ==> Self::stored_in(*v) is None,
    ;

    fn from_value_mut(v: &mut Value) -> (r: Option<&mut Self>)
        ensures
            match r {
                Some(x) => Self::stored_in(*old(v)) == Some(*x) && *final(v) == Self::as_value(
                    *final(x),
                ),
                None => Self::stored_in(*old(v)) is None && *final(v) == *old(v),
            },
    ;
}

impl Stored for AnyMap {
    open spec fn tag() -> nat {
        0
    }

    proof fn lemma_tag(v: Value) {
        if Self::stored_in(v) is Some {
            assert(v is Table);
        }
    }

    open spec fn stored_in(v: Value) -> Option<AnyMap> {
        match v {
            Value::Table(x) => Some(x),
            _ => None,
        }
    }

    open spec fn as_value(self) -> Value {
        Value::Table(self)
    }

    proof fn lemma_round_trip(x: Self) {
    }

    fn into_value(self) -> (v: Value) {
        Value::Table(self)
    }

    fn from_value_ref(v: &Value) -> (r: Option<&Self>) {
        match v {
            Value::Table(x) => Some(x),
            _ => None,
        }
    }

    fn from_value_mut(v: &mut Value) -> (r: Option<&mut Self>) {
        match v {
            Value::Table(x) => Some(x),
            _ => None,
        }
    }
}

impl Stored for Vec<AnyMap> {
    open spec fn tag() -> nat {
        1
    }

    proof fn lemma_tag(v: Value) {
        if Self::stored_in(v) is Some {
            assert(v is TableList);
        }
    }

    open spec fn stored_in(v: Value) -> Option<Vec<AnyMap>> {
        match v {
            Value::TableList(x) => Some(x),
            _ => None,
        }
    }

    open spec fn as_value(self) -> Value {
        Value::TableList(self)
    }

    proof fn lemma_round_trip(x: Self) {
    }

    fn into_value(self) -> (v: Value) {
        Value::TableList(self)
    }

    fn from_value_ref(v: &Value) -> (r: Option<&Self>) {
        match v {
            Value::TableList(x) => Some(x),
            _ => None,
        }
    }

    fn from_value_mut(v: &mut Value) -> (r: Option<&mut Self>) {
        match v {
            Value::TableList(x) => Some(x),
            _ => None,
        }
    }
}

impl Stored for bool {
    open spec fn tag() -> nat {
        2
    }

    proof fn lemma_tag(v: Value) {
        if Self::stored_in(v) is Some {
            assert(v is Bool);
        }
    }

    open spec fn stored_in(v: Value) -> Option<bool> {
        match v {
            Value::Bool(x) => Some(x),
            _ => None,
        }
    }

    open spec fn as_value(self) -> Value {
        Value::Bool(self)
    }

    proof fn lemma_round_trip(x: Self) {
    }

    fn into_value(self) -> (v: Value) {
        Value::Bool(self)
    }

    fn from_value_ref(v: &Value) -> (r: Option<&Self>) {
        match v {
            Value::Bool(x) => Some(x),
            _ => None,
        }
    }

    fn from_value_mut(v: &mut Value) -> (r: Option<&mut Self>) {
        match v {
            Value::Bool(x) => Some(x),
            _ => None,
        }
    }
}

impl Stored for i32 {
    open spec fn tag() -> nat {
        3
    }

    proof fn lemma_tag(v: Value) {
        if Self::stored_in(v) is Some {
            assert(v is I32);
        }
    }

    open spec fn stored_in(v: Value) -> Option<i32> {
        match v {
            Value::I32(x) => Some(x),
            _ => None,
        }
    }

    open spec fn as_value(self) -> Value {
        Value::I32(self)
    }

    proof fn lemma_round_trip(x: Self) {
    }

    fn into_value(self) -> (v: Value) {
        Value::I32(self)
    }

    fn from_value_ref(v: &Value) -> (r: Option<&Self>) {
        match v {
            Value::I32(x) => Some(x),
            _ => None,
        }
    }

    fn from_value_mut(v: &mut Value) -> (r: Option<&mut Self>) {
        match v {
            Value::I32(x) => Some(x),
            _ => None,
        }
    }
}

impl Stored for i64 {
    open spec fn tag() -> nat {
        4
    }

    proof fn lemma_tag(v: Value) {
        if Self::stored_in(v) is Some {
            assert(v is I64);
        }
    }

    open spec fn stored_in(v: Value) -> Option<i64> {
        match v {
            Value::I64(x) => Some(x),
            _ => None,
        }
    }

    open spec fn as_value(self) -> Value {
        Value::I64(self)
    }

    proof fn lemma_round_trip(x: Self) {
    }

    fn into_value(self) -> (v: Value) {
        Value::I64(self)
    }

    fn from_value_ref(v: &Value) -> (r: Option<&Self>) {
        match v {
            Value::I64(x) => Some(x),
            _ => None,
        }
    }

    fn from_value_mut(v: &mut Value) -> (r: Option<&mut Self>) {
        match v {
            Value::I64(x) => Some(x),
            _ => None,
        }
    }
}

impl Stored for Option<i32> {
    open spec fn tag() -> nat {
        5
    }

    proof fn lemma_tag(v: Value) {
        if Self::stored_in(v) is Some {
            assert(v is MaybeI32);
        }
    }

    open spec fn stored_in(v: Value) -> Option<Option<i32>> {
        match v {
            Value::MaybeI32(x) => Some(x),
            _ => None,
        }
    }

    open spec fn as_value(self) -> Value {
        Value::MaybeI32(self)
    }

    proof fn lemma_round_trip(x: Self) {
    }

    fn into_value(self) -> (v: Value) {
        Value::MaybeI32(self)
    }

    fn from_value_ref(v: &Value) -> (r: Option<&Self>) {
        match v {
            Value::MaybeI32(x) => Some(x),
            _ => None,
        }
    }

    fn from_value_mut(v: &mut Value) -> (r: Option<&mut Self>) {
        match v {
            Value::MaybeI32(x) => Some(x),
            _ => None,
        }
    }
}

impl Stored for F64Bits {
    open spec fn tag() -> nat {
        6
    }

    proof fn lemma_tag(v: Value) {
        if Self::stored_in(v) is Some {
            assert(v is Float);
        }
    }

    open spec fn stored_in(v: Value) -> Option<F64Bits> {
        match v {
            Value::Float(x) => Some(x),
            _ => None,
        }
    }

    open spec fn as_value(self) -> Value {
        Value::Float(self)
    }

    proof fn lemma_round_trip(x: Self) {
    }

    fn into_value(self) -> (v: Value) {
        Value::Float(self)
    }

    fn from_value_ref(v: &Value) -> (r: Option<&Self>) {
        match v {
            Value::Float(x) => Some(x),
            _ => None,
        }
    }

    fn from_value_mut(v: &mut Value) -> (r: Option<&mut Self>) {
        match v {
            Value::Float(x) => Some(x),
            _ => None,
        }
    }
}

impl Stored for CalendarDay {
    open spec fn tag() -> nat {
        7
    }

    proof fn lemma_tag(v: Value) {
        if Self::stored_in(v) is Some {
            assert(v is Day);
        }
    }

    open spec fn stored_in(v: Value) -> Option<CalendarDay> {
        match v {
            Value::Day(x) => Some(x),
            _ => None,
        }
    }

    open spec fn as_value(self) -> Value {
        Value::Day(self)
    }

    proof fn lemma_round_trip(x: Self) {
    }

    fn into_value(self) -> (v: Value) {
        Value::Day(self)
    }

    fn from_value_ref(v: &Value) -> (r: Option<&Self>) {
        match v {
            Value::Day(x) => Some(x),
            _ => None,
        }
    }

    fn from_value_mut(v: &mut Value) -> (r: Option<&mut Self>) {
        match v {
            Value::Day(x) => Some(x),
            _ => None,
        }
    }
}

impl Stored for UuidValue {
    open spec fn tag() -> nat {
        8
    }

    proof fn lemma_tag(v: Value) {
        if Self::stored_in(v) is Some {
            assert(v is Uuid);
        }
    }

    open spec fn stored_in(v: Value) -> Option<UuidValue> {
        match v {
            Value::Uuid(x) => Some(x),
            _ => None,
        }
    }

    open spec fn as_value(self) -> Value {
        Value::Uuid(self)
    }

    proof fn lemma_round_trip(x: Self) {
    }

    fn into_value(self) -> (v: Value) {
        Value::Uuid(self)
    }

    fn from_value_ref(v: &Value) -> (r: Option<&Self>) {
        match v {
            Value::Uuid(x) => Some(x),
            _ => None,
        }
    }

    fn from_value_mut(v: &mut Value) -> (r: Option<&mut Self>) {
        match v {
            Value::Uuid(x) => Some(x),
            _ => None,
        }
    }
}

impl Stored for JsonText {
    open spec fn tag() -> nat {
        9
    }

    proof fn lemma_tag(v: Value) {
        if Self::stored_in(v) is Some {
            assert(v is Json);
        }
    }

    open spec fn stored_in(v: Value) -> Option<JsonText> {
        match v {
            Value::Json(x) => Some(x),
            _ => None,
        }
    }

    open spec fn as_value(self) -> Value {
        Value::Json(self)
    }

    proof fn lemma_round_trip(x: Self) {
    }

    fn into_value(self) -> (v: Value) {
        Value::Json(self)
    }

    fn from_value_ref(v: &Value) -> (r: Option<&Self>) {
        match v {
            Value::Json(x) => Some(x),
            _ => None,
        }
    }

    fn from_value_mut(v: &mut Value) -> (r: Option<&mut Self>) {
        match v {
            Value::Json(x) => Some(x),
            _ => None,
        }
    }
}

} // verus!

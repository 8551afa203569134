//! The values that a statement binds to its placeholders.
use vstd::prelude::*;
use chrono::{NaiveDate, NaiveDateTime};
use serde_json::Value;

verus! {

#[verifier::external_type_specification]
#[verifier::external_body]
pub struct ExNaiveDate(NaiveDate);

#[verifier::external_type_specification]
#[verifier::external_body]
pub struct ExNaiveDateTime(NaiveDateTime);

#[verifier::external_type_specification]
#[verifier::external_body]
pub struct ExJsonValue(Value);

/// Relies on chrono's derived `Clone` for `NaiveDate`, which copies the value.
pub assume_specification[ <NaiveDate as Clone>::clone ](d: &NaiveDate) -> (r: NaiveDate)
    ensures
        r == *d,
;

/// Relies on chrono's derived `Clone` for `NaiveDateTime`, which copies the value.
pub assume_specification[ <NaiveDateTime as Clone>::clone ](d: &NaiveDateTime) -> (r: NaiveDateTime)
    ensures
        r == *d,
;

/// Relies on serde_json's derived `Clone` for `Value`, which copies the
/// whole tree into an equal value.
pub assume_specification[ <Value as Clone>::clone ](v: &Value) -> (r: Value)
    ensures
        r == *v,
;

/// A value to bind, one variant for each kind of native literal accepted.
#[derive(Debug)]
pub enum SQLValue {
    I16(i16),
    I32(i32),
    I64(i64),
    U64(u64),
    DateTime(NaiveDateTime),
    Date(NaiveDate),
    VecI64(Vec<i64>),
    String(String),
    Bool(bool),
    Json(Value),
    Null,
}

/// The mathematical model of a bind value.
pub enum BindValue {
    I16(i16),
    I32(i32),
    I64(i64),
    U64(u64),
    DateTime(NaiveDateTime),
    Date(NaiveDate),
    VecI64(Seq<i64>),
    Text(Seq<char>),
    Bool(bool),
    Json(Value),
    Null,
}

impl View for SQLValue {
    type V = BindValue;

    open spec fn view(&self) -> BindValue {
        match self {
            SQLValue::I16(v) => BindValue::I16(*v),
            SQLValue::I32(v) => BindValue::I32(*v),
            SQLValue::I64(v) => BindValue::I64(*v),
            SQLValue::U64(v) => BindValue::U64(*v),
            SQLValue::DateTime(v) => BindValue::DateTime(*v),
            SQLValue::Date(v) => BindValue::Date(*v),
            SQLValue::VecI64(v) => BindValue::VecI64(v@),
            SQLValue::String(v) => BindValue::Text(v@),
            SQLValue::Bool(v) => BindValue::Bool(*v),
            SQLValue::Json(v) => BindValue::Json(*v),
            SQLValue::Null => BindValue::Null,
        }
    }
}

/// The models of a sequence of values.
pub open spec fn bind_views(v: Seq<SQLValue>) -> Seq<BindValue> {
    v.map_values(|x: SQLValue| x@)
}

/// Appending values appends their models.
pub proof fn lemma_bind_views_append(a: Seq<SQLValue>, b: Seq<SQLValue>)
    ensures
        bind_views(a + b) == bind_views(a) + bind_views(b),
{
    assert(bind_views(a + b) =~= bind_views(a) + bind_views(b));
}

impl From<i16> for SQLValue {
    fn from(v: i16) -> Self {
        SQLValue::I16(v)
    }
}

impl vstd::std_specs::convert::FromSpecImpl<i16> for SQLValue {
    open spec fn obeys_from_spec() -> bool {
        true
    }

    open spec fn from_spec(v: i16) -> SQLValue {
        SQLValue::I16(v)
    }
}

impl From<i32> for SQLValue {
    fn from(v: i32) -> Self {
        SQLValue::I32(v)
    }
}

impl vstd::std_specs::convert::FromSpecImpl<i32> for SQLValue {
    open spec fn obeys_from_spec() -> bool {
        true
    }

    open spec fn from_spec(v: i32) -> SQLValue {
        SQLValue::I32(v)
    }
}

impl From<i64> for SQLValue {
    fn from(v: i64) -> Self {
        SQLValue::I64(v)
    }
}

impl vstd::std_specs::convert::FromSpecImpl<i64> for SQLValue {
    open spec fn obeys_from_spec() -> bool {
        true
    }

    open spec fn from_spec(v: i64) -> SQLValue {
        SQLValue::I64(v)
    }
}

impl From<u64> for SQLValue {
    fn from(v: u64) -> Self {
        SQLValue::U64(v)
    }
}

impl vstd::std_specs::convert::FromSpecImpl<u64> for SQLValue {
    open spec fn obeys_from_spec() -> bool {
        true
    }

    open spec fn from_spec(v: u64) -> SQLValue {
        SQLValue::U64(v)
    }
}

impl From<bool> for SQLValue {
    fn from(v: bool) -> Self {
        SQLValue::Bool(v)
    }
}

impl vstd::std_specs::convert::FromSpecImpl<bool> for SQLValue {
    open spec fn obeys_from_spec() -> bool {
        true
    }

    open spec fn from_spec(v: bool) -> SQLValue {
        SQLValue::Bool(v)
    }
}

impl From<NaiveDateTime> for SQLValue {
    fn from(v: NaiveDateTime) -> Self {
        SQLValue::DateTime(v)
    }
}

impl vstd::std_specs::convert::FromSpecImpl<NaiveDateTime> for SQLValue {
    open spec fn obeys_from_spec() -> bool {
        true
    }

    open spec fn from_spec(v: NaiveDateTime) -> SQLValue {
        SQLValue::DateTime(v)
    }
}

impl From<NaiveDate> for SQLValue {
    fn from(v: NaiveDate) -> Self {
        SQLValue::Date(v)
    }
}

impl vstd::std_specs::convert::FromSpecImpl<NaiveDate> for SQLValue {
    open spec fn obeys_from_spec() -> bool {
        true
    }

    open spec fn from_spec(v: NaiveDate) -> SQLValue {
        SQLValue::Date(v)
    }
}

impl From<Vec<i64>> for SQLValue {
    fn from(v: Vec<i64>) -> Self {
        SQLValue::VecI64(v)
    }
}

impl vstd::std_specs::convert::FromSpecImpl<Vec<i64>> for SQLValue {
    open spec fn obeys_from_spec() -> bool {
        true
    }

    open spec fn from_spec(v: Vec<i64>) -> SQLValue {
        SQLValue::VecI64(v)
    }
}

impl From<String> for SQLValue {
    fn from(v: String) -> Self {
        SQLValue::String(v)
    }
}

impl vstd::std_specs::convert::FromSpecImpl<String> for SQLValue {
    open spec fn obeys_from_spec() -> bool {
        true
    }

    open spec fn from_spec(v: String) -> SQLValue {
        SQLValue::String(v)
    }
}

impl From<Value> for SQLValue {
    fn from(v: Value) -> Self {
        SQLValue::Json(v)
    }
}

impl vstd::std_specs::convert::FromSpecImpl<Value> for SQLValue {
    open spec fn obeys_from_spec() -> bool {
        true
    }

    open spec fn from_spec(v: Value) -> SQLValue {
        SQLValue::Json(v)
    }
}

impl From<()> for SQLValue {
    fn from(v: ()) -> Self {
        SQLValue::Null
    }
}

impl vstd::std_specs::convert::FromSpecImpl<()> for SQLValue {
    open spec fn obeys_from_spec() -> bool {
        true
    }

    open spec fn from_spec(v: ()) -> SQLValue {
        SQLValue::Null
    }
}

impl SQLValue {
    /// A text value holding a copy of `s`.
    pub fn text(s: &str) -> (r: SQLValue)
        ensures
            r@ == BindValue::Text(s@),
    {
        SQLValue::String(String::from_str(s))
    }
}

/// Copies a list of integers.
pub(crate) fn copy_ints(v: &Vec<i64>) -> (r: Vec<i64>)
    ensures
        r@ == v@,
{
    let mut out: Vec<i64> = Vec::new();
    let mut i: usize = 0;
    while i < v.len()
        invariant
            i <= v.len(),
            out@ == v@.subrange(0, i as int),
        decreases v.len() - i,
    {
        out.push(v[i]);
        i = i + 1;
        assert(out@ =~= v@.subrange(0, i as int));
    }
    assert(v@.subrange(0, i as int) =~= v@);
    out
}

impl Clone for SQLValue {
    fn clone(&self) -> (r: Self)
        ensures
            r@ == self@,
    {
        match self {
            SQLValue::I16(v) => SQLValue::I16(*v),
            SQLValue::I32(v) => SQLValue::I32(*v),
            SQLValue::I64(v) => SQLValue::I64(*v),
            SQLValue::U64(v) => SQLValue::U64(*v),
            SQLValue::DateTime(v) => SQLValue::DateTime(*v),
            SQLValue::Date(v) => SQLValue::Date(*v),
            SQLValue::VecI64(v) => SQLValue::VecI64(copy_ints(v)),
            SQLValue::String(v) => SQLValue::String(v.clone()),
            SQLValue::Bool(v) => SQLValue::Bool(*v),
            SQLValue::Json(v) => SQLValue::Json(v.clone()),
            SQLValue::Null => SQLValue::Null,
        }
    }
}

} // verus!

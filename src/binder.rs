//! Turning a rendered template and its values into a Postgres query builder,
//! with the generic placeholders replaced by numbered parameters.
use vstd::prelude::*;
use chrono::{NaiveDate, NaiveDateTime};
use itertools::{EitherOrBoth, Itertools};
use serde_json::Value;
use sqlx::{Postgres, QueryBuilder};
use crate::sql_value::{BindValue, SQLValue, bind_views};
use crate::statement::{Select, sourced, text_of, values_of};
use crate::text::{count_placeholders, placeholders, segments, split_placeholders, views, weave, weave_upto, lemma_segments_len};

verus! {

/// A Postgres statement being built by sqlx: the query text with numbered
/// parameters, and the arguments bound to them. `inner` is sqlx's builder,
/// ready to execute.
#[verifier::external_body]
pub struct PgQueryBuilder<'args> {
    pub inner: QueryBuilder<'args, Postgres>,
}

#[verifier::external_type_specification]
#[verifier::reject_recursive_types(A)]
#[verifier::reject_recursive_types(B)]
pub struct ExEitherOrBoth<A, B>(EitherOrBoth<A, B>);

/// The query text that a builder holds.
pub uninterp spec fn builder_sql(qb: &PgQueryBuilder) -> Seq<char>;

/// How many arguments a builder has bound.
pub uninterp spec fn builder_args(qb: &PgQueryBuilder) -> nat;

/// Whether a builder still holds its arguments, so that it can be added to.
pub uninterp spec fn builder_open(qb: &PgQueryBuilder) -> bool;

/// The values a builder has bound, in the order of their parameters.
pub uninterp spec fn builder_values(qb: &PgQueryBuilder) -> Seq<BindValue>;

/// The length in bytes of serde_json's compact serialisation of `v`, or
/// nothing where serialising fails.
pub uninterp spec fn json_size(v: Value) -> Option<nat>;

/// The decimal digit `d`.
pub open spec fn digit(d: nat) -> char {
    if d == 0 {
        '0'
    } else if d == 1 {
        '1'
    } else if d == 2 {
        '2'
    } else if d == 3 {
        '3'
    } else if d == 4 {
        '4'
    } else if d == 5 {
        '5'
    } else if d == 6 {
        '6'
    } else if d == 7 {
        '7'
    } else if d == 8 {
        '8'
    } else {
        '9'
    }
}

/// The decimal numeral of `n`, without leading zeros.
pub open spec fn decimal(n: nat) -> Seq<char>
    decreases n,
{
    if n < 10 {
        seq![digit(n)]
    } else {
        decimal(n / 10).push(digit(n % 10))
    }
}

/// The `n`-th positional parameter, counting from one.
pub open spec fn parameter(n: nat) -> Seq<char> {
    seq!['$'] + decimal(n)
}

/// The first `n` positional parameters.
pub open spec fn parameters(n: nat) -> Seq<Seq<char>> {
    Seq::new(n, |k: int| parameter((k + 1) as nat))
}

/// `new` is `old` with `v` bound as one more argument and its parameter
/// written.
pub open spec fn bound_one(old: &PgQueryBuilder, new: &PgQueryBuilder, v: BindValue) -> bool {
    &&& builder_sql(new) == builder_sql(old) + parameter(builder_args(old) + 1)
    &&& builder_args(new) == builder_args(old) + 1
    &&& builder_values(new) == builder_values(old).push(v)
    &&& builder_open(new)
}

/// The signed 64-bit integer with the same bits as `n`.
pub open spec fn same_bits(n: u64) -> i64 {
    if n <= i64::MAX {
        n as i64
    } else {
        (n - 0x1_0000_0000_0000_0000) as i64
    }
}

/// What is bound for a value: an unsigned integer as the signed integer with
/// the same bits, the null marker as the text `null`, anything else as it is.
pub open spec fn bound_view(v: BindValue) -> BindValue {
    match v {
        BindValue::U64(n) => BindValue::I64(same_bits(n)),
        BindValue::Null => BindValue::Text("null"@),
        _ => v,
    }
}

/// What is bound for each of `vs`, in order.
pub open spec fn bound_views(vs: Seq<BindValue>) -> Seq<BindValue> {
    vs.map_values(|v: BindValue| bound_view(v))
}

/// Whether sqlx can encode `v` within Postgres's limit on the size of one
/// parameter (`i32::MAX` bytes): text takes at most four bytes a character,
/// an array a 20-byte header and 12 bytes an element, JSON one version byte
/// and its serialisation.
pub open spec fn bindable(v: BindValue) -> bool {
    match v {
        BindValue::Text(s) => 4 * s.len() <= i32::MAX,
        BindValue::VecI64(a) => 20 + 12 * a.len() <= i32::MAX,
        BindValue::Json(j) => json_size(j) matches Some(n) && n + 1 <= i32::MAX,
        _ => true,
    }
}

/// Relies on `QueryBuilder::new`: the query starts as the empty text and no
/// argument is bound.
#[verifier::external_body]
fn new_builder<'args>() -> (r: PgQueryBuilder<'args>)
    ensures
        builder_sql(&r) == Seq::<char>::empty(),
        builder_args(&r) == 0,
        builder_values(&r) == Seq::<BindValue>::empty(),
        builder_open(&r),
{
    PgQueryBuilder { inner: QueryBuilder::new("") }
}

/// Relies on `QueryBuilder::push`: the fragment is written at the end of the
/// query; the arguments stay as they are.
#[verifier::external_body]
fn push_text(qb: &mut PgQueryBuilder<'_>, s: &str)
    requires
        builder_open(old(qb)),
    ensures
        builder_sql(final(qb)) == builder_sql(old(qb)) + s@,
        builder_args(final(qb)) == builder_args(old(qb)),
        builder_values(final(qb)) == builder_values(old(qb)),
        builder_open(final(qb)),
{
    qb.inner.push(s);
}

/// Relies on `QueryBuilder::push_bind` for an `i16`: the value becomes the
/// next argument, and `$` with the new argument count is written.
#[verifier::external_body]
fn bind_i16(qb: &mut PgQueryBuilder<'_>, v: i16)
    requires
        builder_open(old(qb)),
    ensures
        bound_one(old(qb), final(qb), BindValue::I16(v)),
{
    qb.inner.push_bind(v);
}

/// Relies on `QueryBuilder::push_bind` for an `i32`, as `bind_i16` does.
#[verifier::external_body]
fn bind_i32(qb: &mut PgQueryBuilder<'_>, v: i32)
    requires
        builder_open(old(qb)),
    ensures
        bound_one(old(qb), final(qb), BindValue::I32(v)),
{
    qb.inner.push_bind(v);
}

/// Relies on `QueryBuilder::push_bind` for an `i64`, as `bind_i16` does.
#[verifier::external_body]
fn bind_i64(qb: &mut PgQueryBuilder<'_>, v: i64)
    requires
        builder_open(old(qb)),
    ensures
        bound_one(old(qb), final(qb), BindValue::I64(v)),
{
    qb.inner.push_bind(v);
}

/// Relies on `QueryBuilder::push_bind` for a `bool`, as `bind_i16` does.
#[verifier::external_body]
fn bind_bool(qb: &mut PgQueryBuilder<'_>, v: bool)
    requires
        builder_open(old(qb)),
    ensures
        bound_one(old(qb), final(qb), BindValue::Bool(v)),
{
    qb.inner.push_bind(v);
}

/// Relies on `QueryBuilder::push_bind` for a `NaiveDate`, as `bind_i16`
/// does; every chrono date fits Postgres's day count.
#[verifier::external_body]
fn bind_date(qb: &mut PgQueryBuilder<'_>, v: NaiveDate)
    requires
        builder_open(old(qb)),
    ensures
        bound_one(old(qb), final(qb), BindValue::Date(v)),
{
    qb.inner.push_bind(v);
}

/// Relies on `QueryBuilder::push_bind` for a `NaiveDateTime`, as `bind_i16`
/// does; every chrono date-time fits Postgres's microsecond count.
#[verifier::external_body]
fn bind_date_time(qb: &mut PgQueryBuilder<'_>, v: NaiveDateTime)
    requires
        builder_open(old(qb)),
    ensures
        bound_one(old(qb), final(qb), BindValue::DateTime(v)),
{
    qb.inner.push_bind(v);
}

/// Relies on `QueryBuilder::push_bind` for a `String`, as `bind_i16` does;
/// the text's UTF-8 bytes must fit the parameter size limit.
#[verifier::external_body]
fn bind_text(qb: &mut PgQueryBuilder<'_>, v: String)
    requires
        builder_open(old(qb)),
        4 * v@.len() <= i32::MAX,
    ensures
        bound_one(old(qb), final(qb), BindValue::Text(v@)),
{
    qb.inner.push_bind(v);
}

/// Relies on `QueryBuilder::push_bind` for a `Vec<i64>`, as `bind_i16` does;
/// the array's encoding (a 20-byte header and 12 bytes an element) must fit
/// the parameter size limit.
#[verifier::external_body]
fn bind_array(qb: &mut PgQueryBuilder<'_>, v: Vec<i64>)
    requires
        builder_open(old(qb)),
        20 + 12 * v@.len() <= i32::MAX,
    ensures
        bound_one(old(qb), final(qb), BindValue::VecI64(v@)),
{
    qb.inner.push_bind(v);
}

/// Relies on `QueryBuilder::push_bind` for a JSON `Value`, as `bind_i16`
/// does; sqlx writes a version byte and then serialises the value with
/// serde_json, and the whole must fit the parameter size limit.
#[verifier::external_body]
fn bind_json(qb: &mut PgQueryBuilder<'_>, v: Value)
    requires
        builder_open(old(qb)),
        json_size(v) matches Some(n) && n + 1 <= i32::MAX,
    ensures
        bound_one(old(qb), final(qb), BindValue::Json(v)),
{
    qb.inner.push_bind(v);
}

/// Relies on `QueryBuilder::push_bind` for the text `null`, as `bind_i16`
/// does.
#[verifier::external_body]
fn bind_null_text(qb: &mut PgQueryBuilder<'_>)
    requires
        builder_open(old(qb)),
    ensures
        bound_one(old(qb), final(qb), BindValue::Text("null"@)),
{
    qb.inner.push_bind("null");
}

/// Relies on `serde_json::to_vec`: the length of the compact serialisation,
/// the same bytes that sqlx writes with `serde_json::to_writer`, or nothing
/// where serialising fails.
#[verifier::external_body]
fn json_len(v: &Value) -> (r: Option<usize>)
    ensures
        r matches Some(n) ==> json_size(*v) == Some(n as nat),
        r is None ==> json_size(*v) is None,
{
    serde_json::to_vec(v).ok().map(|b| b.len())
}

impl SQLValue {
    /// Whether the value fits Postgres's limit on the size of one parameter,
    /// so that `push_bind` can bind it.
    pub fn fits(&self) -> (r: bool)
        ensures
            r == bindable(self@),
    {
        match self {
            SQLValue::String(s) => s.as_str().unicode_len() <= 536870911,
            SQLValue::VecI64(a) => a.len() <= 178956968,
            SQLValue::Json(j) => match json_len(j) {
                Some(n) => n < 2147483647,
                None => false,
            },
            _ => true,
        }
    }

    /// Binds the value as the builder's next argument. An unsigned value is
    /// bound as the signed 64-bit integer with the same bits; the null
    /// marker is bound as the text `null`.
    pub fn push_bind(&self, qb: &mut PgQueryBuilder)
        requires
            builder_open(old(qb)),
            bindable(self@),
        ensures
            bound_one(old(qb), final(qb), bound_view(self@)),
    {
        match self {
            SQLValue::I16(v) => bind_i16(qb, *v),
            SQLValue::I32(v) => bind_i32(qb, *v),
            SQLValue::I64(v) => bind_i64(qb, *v),
            SQLValue::U64(v) => {
                let n: i64 = if *v <= 9223372036854775807 {
                    *v as i64
                } else {
                    ((*v - 9223372036854775808) as i64) - 9223372036854775807 - 1
                };
                bind_i64(qb, n);
            },
            SQLValue::DateTime(v) => bind_date_time(qb, *v),
            SQLValue::Date(v) => bind_date(qb, *v),
            SQLValue::VecI64(v) => bind_array(qb, v.clone()),
            SQLValue::String(v) => bind_text(qb, v.clone()),
            SQLValue::Bool(v) => bind_bool(qb, *v),
            SQLValue::Json(v) => bind_json(qb, v.clone()),
            SQLValue::Null => bind_null_text(qb),
        }
    }
}

impl<'args> PgQueryBuilder<'args> {
    /// Relies on `QueryBuilder::sql`: the query text written so far.
    #[verifier::external_body]
    pub fn sql(&self) -> (r: &str)
        ensures
            r@ == builder_sql(self),
    {
        self.inner.sql()
    }
}

/// The item that `zip_longest` yields at position `i` from `a` and `b`.
pub open spec fn longest_pair<A, B>(a: Seq<A>, b: Seq<B>, i: int) -> EitherOrBoth<A, B> {
    if i < a.len() && i < b.len() {
        EitherOrBoth::Both(a[i], b[i])
    } else if i < a.len() {
        EitherOrBoth::Left(a[i])
    } else {
        EitherOrBoth::Right(b[i])
    }
}

/// Relies on `Itertools::zip_longest`: items are paired by position while
/// both lists have one, and the rest of the longer list comes alone.
#[verifier::external_body]
fn pair_up(parts: Vec<String>, vals: Vec<SQLValue>) -> (r: Vec<EitherOrBoth<String, SQLValue>>)
    ensures
        r@.len() == if parts@.len() >= vals@.len() { parts@.len() } else { vals@.len() },
        forall|i: int| 0 <= i < r@.len() ==> #[trigger] r@[i] == longest_pair(parts@, vals@, i),
{
    parts.into_iter().zip_longest(vals).collect()
}

/// A template split at its placeholders has as many parts as there are
/// values, or one more; binding cannot go on otherwise.
pub fn assert_query_part_and_placeholder_lengths_correct(query_parts: &[String], placeholders: usize)
    requires
        query_parts@.len() == placeholders + 1 || query_parts@.len() == placeholders,
    ensures
        query_parts@.len() == placeholders + 1 || query_parts@.len() == placeholders,
{
}

/// The template `p` holds as many placeholders as there are values `vs`, or
/// one fewer, and every value fits a parameter.
pub open spec fn bindable_parts(p: Seq<char>, vs: Seq<BindValue>) -> bool {
    &&& placeholders(p) == vs.len() || placeholders(p) + 1 == vs.len()
    &&& forall|i: int| 0 <= i < vs.len() ==> bindable(#[trigger] vs[i])
}

/// Binds a rendered template and its values: the literal parts in order,
/// each placeholder replaced by the next numbered parameter with its value
/// bound to it.
fn bind_rendered<'args>(p: String, v: Vec<SQLValue>) -> (r: PgQueryBuilder<'args>)
    requires
        bindable_parts(p@, bind_views(v@)),
    ensures
        builder_sql(&r) == weave(segments(p@), parameters(v@.len())),
        builder_args(&r) == v@.len(),
        builder_values(&r) == bound_views(bind_views(v@)),
        builder_open(&r),
{
    let ghost vs = bind_views(v@);
    let parts = split_placeholders(p.as_str());
    proof {
        lemma_segments_len(p@);
    }
    assert_query_part_and_placeholder_lengths_correct(parts.as_slice(), v.len());
    let ghost segs = views(parts@);
    let ghost params = parameters(v@.len() as nat);
    let ghost parts0 = parts@;
    let ghost vals0 = v@;
    let n_parts = parts.len();
    let n_vals = v.len();
    let pairs = pair_up(parts, v);
    let ghost pairs0 = pairs@;
    let rounds = pairs.len();
    let mut rest = pairs;
    let mut qb = new_builder();
    let mut k: usize = 0;
    assert(pairs0.subrange(0, rounds as int) =~= pairs0);
    assert(bound_views(vs.subrange(0, 0)) =~= Seq::<BindValue>::empty());
    while k < rounds
        invariant
            rounds == pairs0.len(),
            rounds == (if n_parts >= n_vals { n_parts } else { n_vals }),
            n_parts == parts0.len(),
            n_vals == vals0.len(),
            segs == views(parts0),
            params == parameters(n_vals as nat),
            bind_views(vals0) == vs,
            forall|i: int| 0 <= i < vs.len() ==> bindable(#[trigger] vs[i]),
            forall|i: int| 0 <= i < rounds ==> #[trigger] pairs0[i] == longest_pair(parts0, vals0, i),
            k <= rounds,
            rest@ == pairs0.subrange(k as int, rounds as int),
            builder_sql(&qb) == weave_upto(segs, params, k as nat),
            builder_args(&qb) == if k <= n_vals { k } else { n_vals },
            builder_values(&qb) == bound_views(vs.subrange(0, if k <= n_vals { k as int } else { n_vals as int })),
            builder_open(&qb),
        decreases rounds - k,
    {
        let pair = rest.remove(0);
        proof {
            assert(pair == pairs0[k as int]);
            assert(rest@ =~= pairs0.subrange(k as int + 1, rounds as int));
            if k < n_vals {
                assert(bind_views(vals0)[k as int] == vals0[k as int]@);
                assert(bound_views(vs.subrange(0, k as int + 1)) =~= bound_views(vs.subrange(0, k as int)).push(
                    bound_view(vs[k as int]),
                ));
            }
        }
        match pair {
            EitherOrBoth::Both(part, val) => {
                push_text(&mut qb, part.as_str());
                val.push_bind(&mut qb);
            },
            EitherOrBoth::Left(part) => {
                push_text(&mut qb, part.as_str());
            },
            EitherOrBoth::Right(val) => {
                val.push_bind(&mut qb);
            },
        }
        proof {
            if k < n_parts {
                assert(segs[k as int] == parts0[k as int]@);
            }
            assert(builder_sql(&qb) =~= weave_upto(segs, params, (k + 1) as nat));
        }
        k = k + 1;
    }
    assert(vs.subrange(0, n_vals as int) =~= vs);
    qb
}

impl Select {
    /// Renders the statement into a Postgres query builder: the template's
    /// literal parts in order, each generic placeholder replaced by the next
    /// numbered parameter, with the statement's next value bound to it.
    pub fn into_builder<'args>(self) -> (r: PgQueryBuilder<'args>)
        requires
            sourced(self),
            bindable_parts(text_of(self), values_of(self)),
        ensures
            builder_sql(&r) == weave(segments(text_of(self)), parameters(values_of(self).len())),
            builder_args(&r) == values_of(self).len(),
            builder_values(&r) == bound_views(values_of(self)),
            builder_open(&r),
    {
        let (p, v) = self.parts();
        bind_rendered(p, v)
    }

    /// As `into_builder`, but first tests that the template's placeholders
    /// and the values agree in number and that every value fits a
    /// parameter; nothing where they do not.
    pub fn try_into_builder<'args>(self) -> (r: Option<PgQueryBuilder<'args>>)
        requires
            sourced(self),
        ensures
            r is Some <==> bindable_parts(text_of(self), values_of(self)),
            r matches Some(b) ==> builder_sql(&b) == weave(
                segments(text_of(self)),
                parameters(values_of(self).len()),
            ) && builder_args(&b) == values_of(self).len() && builder_values(&b) == bound_views(
                values_of(self),
            ) && builder_open(&b),
    {
        let ghost t = text_of(self);
        let ghost vs = values_of(self);
        let (p, v) = self.parts();
        let n = count_placeholders(p.as_str());
        if !(n == v.len() || (n < v.len() && n + 1 == v.len())) {
            return None;
        }
        let mut i: usize = 0;
        while i < v.len()
            invariant
                i <= v.len(),
                vs == bind_views(v@),
                vs == values_of(self),
                forall|j: int| 0 <= j < i ==> bindable(#[trigger] vs[j]),
            decreases v.len() - i,
        {
            if !v[i].fits() {
                assert(vs[i as int] == v@[i as int]@);
                return None;
            }
            assert(vs[i as int] == v@[i as int]@);
            i = i + 1;
        }
        Some(bind_rendered(p, v))
    }
}

} // verus!

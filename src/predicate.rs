//! Predicate fragments: conditions with the values they bind, composed from
//! templates and chained with connectives.
use vstd::prelude::*;
use chrono::{NaiveDate, NaiveDateTime};
use serde_json::Value;
use crate::bool_kind::{BoolKind, kind_word};
use crate::error::{QResult, QueryError};
use crate::sql_value::{BindValue, SQLValue, bind_views, lemma_bind_views_append};
use crate::text::{
    fill_placeholders, law_substitution_placeholders, placeholders, segments, split_placeholders, weave,
    weave_upto, piece, views, lemma_segments_len,
};
use crate::util::placeholder_count;

verus! {

/// The text of a single bind slot.
pub open spec fn slot() -> Seq<char> {
    seq!['?']
}

/// An argument that fills one placeholder of a predicate template.
pub trait IntoWhere: Sized {
    /// The text that takes the placeholder's place.
    spec fn where_text(&self) -> Seq<char>;

    /// The values that the argument adds, in order.
    spec fn where_values(&self) -> Seq<BindValue>;

    /// Appends the argument's text to `expr` and its values to `vals`.
    fn into_where(self, expr: &mut String, vals: &mut Vec<SQLValue>) -> (r: QResult<()>)
        ensures
            r is Ok,
            final(expr)@ == old(expr)@ + self.where_text(),
            bind_views(final(vals)@) == bind_views(old(vals)@) + self.where_values(),
    ;
}

/// Appends one bind slot for `v`.
fn push_slot(v: SQLValue, expr: &mut String, vals: &mut Vec<SQLValue>)
    ensures
        final(expr)@ == old(expr)@ + slot(),
        bind_views(final(vals)@) == bind_views(old(vals)@) + seq![v@],
{
    proof {
        reveal_strlit("?");
    }
    expr.append("?");
    let ghost before = vals@;
    vals.push(v);
    proof {
        lemma_bind_views_append(before, seq![v]);
        assert(vals@ =~= before + seq![v]);
    }
}

impl IntoWhere for SQLValue {
    open spec fn where_text(&self) -> Seq<char> {
        slot()
    }

    open spec fn where_values(&self) -> Seq<BindValue> {
        seq![self@]
    }

    fn into_where(self, expr: &mut String, vals: &mut Vec<SQLValue>) -> (r: QResult<()>) {
        push_slot(self, expr, vals);
        Ok(())
    }
}

impl<T: IntoWhere> IntoWhere for Option<T> {
    open spec fn where_text(&self) -> Seq<char> {
        match self {
            Some(v) => v.where_text(),
            None => slot(),
        }
    }

    open spec fn where_values(&self) -> Seq<BindValue> {
        match self {
            Some(v) => v.where_values(),
            None => seq![BindValue::Null],
        }
    }

    fn into_where(self, expr: &mut String, vals: &mut Vec<SQLValue>) -> (r: QResult<()>) {
        match self {
            Some(v) => v.into_where(expr, vals),
            None => {
                push_slot(SQLValue::Null, expr, vals);
                Ok(())
            },
        }
    }
}

impl IntoWhere for () {
    open spec fn where_text(&self) -> Seq<char> {
        slot()
    }

    open spec fn where_values(&self) -> Seq<BindValue> {
        seq![BindValue::Null]
    }

    fn into_where(self, expr: &mut String, vals: &mut Vec<SQLValue>) -> (r: QResult<()>) {
        push_slot(SQLValue::Null, expr, vals);
        Ok(())
    }
}

impl IntoWhere for NaiveDate {
    open spec fn where_text(&self) -> Seq<char> {
        slot()
    }

    open spec fn where_values(&self) -> Seq<BindValue> {
        seq![BindValue::Date(*self)]
    }

    fn into_where(self, expr: &mut String, vals: &mut Vec<SQLValue>) -> (r: QResult<()>) {
        push_slot(SQLValue::Date(self), expr, vals);
        Ok(())
    }
}

impl IntoWhere for NaiveDateTime {
    open spec fn where_text(&self) -> Seq<char> {
        slot()
    }

    open spec fn where_values(&self) -> Seq<BindValue> {
        seq![BindValue::DateTime(*self)]
    }

    fn into_where(self, expr: &mut String, vals: &mut Vec<SQLValue>) -> (r: QResult<()>) {
        push_slot(SQLValue::DateTime(self), expr, vals);
        Ok(())
    }
}

impl IntoWhere for Value {
    open spec fn where_text(&self) -> Seq<char> {
        slot()
    }

    open spec fn where_values(&self) -> Seq<BindValue> {
        seq![BindValue::Json(*self)]
    }

    fn into_where(self, expr: &mut String, vals: &mut Vec<SQLValue>) -> (r: QResult<()>) {
        push_slot(SQLValue::Json(self), expr, vals);
        Ok(())
    }
}

impl<'a> IntoWhere for &'a String {
    open spec fn where_text(&self) -> Seq<char> {
        slot()
    }

    open spec fn where_values(&self) -> Seq<BindValue> {
        seq![BindValue::Text(self@)]
    }

    fn into_where(self, expr: &mut String, vals: &mut Vec<SQLValue>) -> (r: QResult<()>) {
        push_slot(SQLValue::String(self.clone()), expr, vals);
        Ok(())
    }
}

impl IntoWhere for i16 {
    open spec fn where_text(&self) -> Seq<char> {
        slot()
    }

    open spec fn where_values(&self) -> Seq<BindValue> {
        seq![BindValue::I16(*self)]
    }

    fn into_where(self, expr: &mut String, vals: &mut Vec<SQLValue>) -> (r: QResult<()>) {
        push_slot(SQLValue::I16(self), expr, vals);
        Ok(())
    }
}

impl IntoWhere for i32 {
    open spec fn where_text(&self) -> Seq<char> {
        slot()
    }

    open spec fn where_values(&self) -> Seq<BindValue> {
        seq![BindValue::I32(*self)]
    }

    fn into_where(self, expr: &mut String, vals: &mut Vec<SQLValue>) -> (r: QResult<()>) {
        push_slot(SQLValue::I32(self), expr, vals);
        Ok(())
    }
}

impl IntoWhere for i64 {
    open spec fn where_text(&self) -> Seq<char> {
        slot()
    }

    open spec fn where_values(&self) -> Seq<BindValue> {
        seq![BindValue::I64(*self)]
    }

    fn into_where(self, expr: &mut String, vals: &mut Vec<SQLValue>) -> (r: QResult<()>) {
        push_slot(SQLValue::I64(self), expr, vals);
        Ok(())
    }
}

impl IntoWhere for u64 {
    open spec fn where_text(&self) -> Seq<char> {
        slot()
    }

    open spec fn where_values(&self) -> Seq<BindValue> {
        seq![BindValue::U64(*self)]
    }

    fn into_where(self, expr: &mut String, vals: &mut Vec<SQLValue>) -> (r: QResult<()>) {
        push_slot(SQLValue::U64(self), expr, vals);
        Ok(())
    }
}

impl IntoWhere for bool {
    open spec fn where_text(&self) -> Seq<char> {
        slot()
    }

    open spec fn where_values(&self) -> Seq<BindValue> {
        seq![BindValue::Bool(*self)]
    }

    fn into_where(self, expr: &mut String, vals: &mut Vec<SQLValue>) -> (r: QResult<()>) {
        push_slot(SQLValue::Bool(self), expr, vals);
        Ok(())
    }
}

impl IntoWhere for String {
    open spec fn where_text(&self) -> Seq<char> {
        slot()
    }

    open spec fn where_values(&self) -> Seq<BindValue> {
        seq![BindValue::Text(self@)]
    }

    fn into_where(self, expr: &mut String, vals: &mut Vec<SQLValue>) -> (r: QResult<()>) {
        push_slot(SQLValue::String(self), expr, vals);
        Ok(())
    }
}

impl<'a> IntoWhere for &'a str {
    open spec fn where_text(&self) -> Seq<char> {
        slot()
    }

    open spec fn where_values(&self) -> Seq<BindValue> {
        seq![BindValue::Text(self@)]
    }

    fn into_where(self, expr: &mut String, vals: &mut Vec<SQLValue>) -> (r: QResult<()>) {
        push_slot(SQLValue::text(self), expr, vals);
        Ok(())
    }
}

impl IntoWhere for Vec<i64> {
    open spec fn where_text(&self) -> Seq<char> {
        slot()
    }

    open spec fn where_values(&self) -> Seq<BindValue> {
        seq![BindValue::VecI64(self@)]
    }

    fn into_where(self, expr: &mut String, vals: &mut Vec<SQLValue>) -> (r: QResult<()>) {
        push_slot(SQLValue::VecI64(self), expr, vals);
        Ok(())
    }
}

/// A predicate fragment: a finished expression, the values it binds, and the
/// connective that links it to the fragment before it in a list.
#[derive(Debug)]
pub enum Where {
    Simple { expr: String, values: Vec<SQLValue>, kind: BoolKind },
}

impl Where {
    /// The fragment's expression.
    pub open spec fn expr_view(&self) -> Seq<char> {
        match self {
            Where::Simple { expr, .. } => expr@,
        }
    }

    /// The values the fragment binds.
    pub open spec fn values_view(&self) -> Seq<BindValue> {
        match self {
            Where::Simple { values, .. } => bind_views(values@),
        }
    }

    /// The fragment's own connective.
    pub open spec fn kind_view(&self) -> BoolKind {
        match self {
            Where::Simple { kind, .. } => *kind,
        }
    }

    /// Its placeholders and its values agree in number.
    pub open spec fn balanced(&self) -> bool {
        placeholders(self.expr_view()) == self.values_view().len()
    }

    /// Sets the connective that links this fragment to the one before it;
    /// the expression and the values stay as they are.
    pub fn kind(&mut self, kind: BoolKind)
        ensures
            final(self).expr_view() == old(self).expr_view(),
            final(self).values_view() == old(self).values_view(),
            final(self).kind_view() == kind,
    {
        match self {
            Where::Simple { kind: k, .. } => *k = kind,
        }
    }

    /// A fragment from an expression without placeholders, linked by `and`.
    pub fn from_expr(input_expr: &str) -> (r: QResult<Where>)
        ensures
            r is Ok <==> placeholders(input_expr@) == 0,
            r matches Ok(w) ==> w.expr_view() == input_expr@ && w.values_view().len() == 0
                && w.kind_view() == BoolKind::And,
            r matches Err(QueryError::IncorrectPlaceholderCount(t, n)) ==> t@ == input_expr@ && n == 0,
    {
        placeholder_count(input_expr, 0)?;
        let values: Vec<SQLValue> = Vec::new();
        proof {
            assert(bind_views(values@) =~= Seq::<BindValue>::empty());
        }
        Ok(Where::Simple { expr: String::from_str(input_expr), values, kind: BoolKind::And })
    }

    /// A fragment from a template with one placeholder, filled by `v1`.
    pub fn from_one<V1: IntoWhere>(input_expr: &str, v1: V1) -> (r: QResult<Where>)
        ensures
            r is Ok <==> placeholders(input_expr@) == 1,
            r matches Ok(w) ==> w.expr_view() == weave(segments(input_expr@), seq![v1.where_text()])
                && w.values_view() == v1.where_values() && w.kind_view() == BoolKind::And,
            r matches Err(QueryError::IncorrectPlaceholderCount(t, n)) ==> t@ == input_expr@ && n == 1,
    {
        placeholder_count(input_expr, 1)?;
        let parts = split_placeholders(input_expr);
        proof {
            lemma_segments_len(input_expr@);
        }
        let mut expr = String::new();
        let mut values: Vec<SQLValue> = Vec::new();
        expr.append(parts[0].as_str());
        let _ = v1.into_where(&mut expr, &mut values);
        expr.append(parts[1].as_str());
        proof {
            let segs = segments(input_expr@);
            let fills = seq![v1.where_text()];
            assert(views(parts@)[0] == parts@[0]@);
            assert(views(parts@)[1] == parts@[1]@);
            reveal_with_fuel(weave_upto, 3);
            assert(bind_views(Seq::<SQLValue>::empty()) =~= Seq::<BindValue>::empty());
            assert(expr@ =~= weave(segs, fills));
            assert(bind_views(values@) =~= v1.where_values());
        }
        Ok(Where::Simple { expr, values, kind: BoolKind::And })
    }

    /// A fragment from a template with two placeholders, filled by `v1` and
    /// `v2` from left to right.
    pub fn from_two<V1: IntoWhere, V2: IntoWhere>(input_expr: &str, v1: V1, v2: V2) -> (r: QResult<Where>)
        ensures
            r is Ok <==> placeholders(input_expr@) == 2,
            r matches Ok(w) ==> w.expr_view() == weave(segments(input_expr@), seq![v1.where_text(), v2.where_text()])
                && w.values_view() == v1.where_values() + v2.where_values()
                && w.kind_view() == BoolKind::And,
            r matches Err(QueryError::IncorrectPlaceholderCount(t, n)) ==> t@ == input_expr@ && n == 2,
    {
        placeholder_count(input_expr, 2)?;
        let parts = split_placeholders(input_expr);
        proof {
            lemma_segments_len(input_expr@);
        }
        let mut expr = String::new();
        let mut values: Vec<SQLValue> = Vec::new();
        expr.append(parts[0].as_str());
        let _ = v1.into_where(&mut expr, &mut values);
        expr.append(parts[1].as_str());
        let _ = v2.into_where(&mut expr, &mut values);
        expr.append(parts[2].as_str());
        proof {
            let segs = segments(input_expr@);
            let fills = seq![v1.where_text(), v2.where_text()];
            assert(views(parts@)[0] == parts@[0]@);
            assert(views(parts@)[1] == parts@[1]@);
            assert(views(parts@)[2] == parts@[2]@);
            reveal_with_fuel(weave_upto, 4);
            assert(bind_views(Seq::<SQLValue>::empty()) =~= Seq::<BindValue>::empty());
            assert(expr@ =~= weave(segs, fills));
            assert(bind_views(values@) =~= v1.where_values() + v2.where_values());
        }
        Ok(Where::Simple { expr, values, kind: BoolKind::And })
    }

    /// A fragment from a template with three placeholders, filled by `v1`,
    /// `v2` and `v3` from left to right.
    pub fn from_three<V1: IntoWhere, V2: IntoWhere, V3: IntoWhere>(
        input_expr: &str,
        v1: V1,
        v2: V2,
        v3: V3,
    ) -> (r: QResult<Where>)
        ensures
            r is Ok <==> placeholders(input_expr@) == 3,
            r matches Ok(w) ==> w.expr_view() == weave(
                segments(input_expr@),
                seq![v1.where_text(), v2.where_text(), v3.where_text()],
            ) && w.values_view() == v1.where_values() + v2.where_values() + v3.where_values()
                && w.kind_view() == BoolKind::And,
            r matches Err(QueryError::IncorrectPlaceholderCount(t, n)) ==> t@ == input_expr@ && n == 3,
    {
        placeholder_count(input_expr, 3)?;
        let parts = split_placeholders(input_expr);
        proof {
            lemma_segments_len(input_expr@);
        }
        let mut expr = String::new();
        let mut values: Vec<SQLValue> = Vec::new();
        expr.append(parts[0].as_str());
        let _ = v1.into_where(&mut expr, &mut values);
        expr.append(parts[1].as_str());
        let _ = v2.into_where(&mut expr, &mut values);
        expr.append(parts[2].as_str());
        let _ = v3.into_where(&mut expr, &mut values);
        expr.append(parts[3].as_str());
        proof {
            let segs = segments(input_expr@);
            let fills = seq![v1.where_text(), v2.where_text(), v3.where_text()];
            assert(views(parts@)[0] == parts@[0]@);
            assert(views(parts@)[1] == parts@[1]@);
            assert(views(parts@)[2] == parts@[2]@);
            assert(views(parts@)[3] == parts@[3]@);
            reveal_with_fuel(weave_upto, 5);
            assert(bind_views(Seq::<SQLValue>::empty()) =~= Seq::<BindValue>::empty());
            assert(expr@ =~= weave(segs, fills));
            assert(bind_views(values@) =~= v1.where_values() + v2.where_values() + v3.where_values());
        }
        Ok(Where::Simple { expr, values, kind: BoolKind::And })
    }
}

impl IntoWhere for Where {
    open spec fn where_text(&self) -> Seq<char> {
        self.expr_view()
    }

    open spec fn where_values(&self) -> Seq<BindValue> {
        self.values_view()
    }

    fn into_where(self, expression: &mut String, vals: &mut Vec<SQLValue>) -> (r: QResult<()>) {
        match self {
            Where::Simple { expr, values, .. } => {
                expression.append(expr.as_str());
                let ghost before = vals@;
                let mut values = values;
                let ghost added = values@;
                vals.append(&mut values);
                proof {
                    lemma_bind_views_append(before, added);
                }
                Ok(())
            },
        }
    }
}

/// Something a predicate fragment can be built from, such as an expression or
/// a template with its arguments.
pub trait TryIntoWhere: Sized {
    /// Whether building succeeds.
    spec fn accepted(&self) -> bool;

    /// Whether `w` is the fragment built.
    spec fn makes(&self, w: Where) -> bool;

    /// The template that a failure reports.
    spec fn template(&self) -> Seq<char>;

    /// The placeholder count that a failure reports.
    spec fn expected(&self) -> usize;

    /// Builds the fragment.
    fn try_into_where(self) -> (r: QResult<Where>)
        ensures
            r is Ok <==> self.accepted(),
            r matches Ok(w) ==> self.makes(w),
            r matches Err(QueryError::IncorrectPlaceholderCount(t, n)) ==> t@ == self.template()
                && n == self.expected(),
    ;
}

impl TryIntoWhere for Where {
    open spec fn accepted(&self) -> bool {
        true
    }

    open spec fn makes(&self, w: Where) -> bool {
        w == *self
    }

    open spec fn template(&self) -> Seq<char> {
        self.expr_view()
    }

    open spec fn expected(&self) -> usize {
        0
    }

    fn try_into_where(self) -> (r: QResult<Where>) {
        Ok(self)
    }
}

impl<'a> TryIntoWhere for &'a str {
    open spec fn accepted(&self) -> bool {
        placeholders(self@) == 0
    }

    open spec fn makes(&self, w: Where) -> bool {
        w.expr_view() == self@ && w.values_view().len() == 0 && w.kind_view() == BoolKind::And
    }

    open spec fn template(&self) -> Seq<char> {
        self@
    }

    open spec fn expected(&self) -> usize {
        0
    }

    fn try_into_where(self) -> (r: QResult<Where>) {
        Where::from_expr(self)
    }
}

impl TryIntoWhere for String {
    open spec fn accepted(&self) -> bool {
        placeholders(self@) == 0
    }

    open spec fn makes(&self, w: Where) -> bool {
        w.expr_view() == self@ && w.values_view().len() == 0 && w.kind_view() == BoolKind::And
    }

    open spec fn template(&self) -> Seq<char> {
        self@
    }

    open spec fn expected(&self) -> usize {
        0
    }

    fn try_into_where(self) -> (r: QResult<Where>) {
        Where::from_expr(self.as_str())
    }
}

impl<'a, V1: IntoWhere> TryIntoWhere for (&'a str, V1) {
    open spec fn accepted(&self) -> bool {
        placeholders(self.0@) == 1
    }

    open spec fn makes(&self, w: Where) -> bool {
        w.expr_view() == weave(segments(self.0@), seq![self.1.where_text()])
            && w.values_view() == self.1.where_values() && w.kind_view() == BoolKind::And
    }

    open spec fn template(&self) -> Seq<char> {
        self.0@
    }

    open spec fn expected(&self) -> usize {
        1
    }

    fn try_into_where(self) -> (r: QResult<Where>) {
        Where::from_one(self.0, self.1)
    }
}

impl<'a, V1: IntoWhere, V2: IntoWhere> TryIntoWhere for (&'a str, V1, V2) {
    open spec fn accepted(&self) -> bool {
        placeholders(self.0@) == 2
    }

    open spec fn makes(&self, w: Where) -> bool {
        w.expr_view() == weave(segments(self.0@), seq![self.1.where_text(), self.2.where_text()])
            && w.values_view() == self.1.where_values() + self.2.where_values()
            && w.kind_view() == BoolKind::And
    }

    open spec fn template(&self) -> Seq<char> {
        self.0@
    }

    open spec fn expected(&self) -> usize {
        2
    }

    fn try_into_where(self) -> (r: QResult<Where>) {
        Where::from_two(self.0, self.1, self.2)
    }
}

impl<'a, V1: IntoWhere, V2: IntoWhere, V3: IntoWhere> TryIntoWhere for (&'a str, V1, V2, V3) {
    open spec fn accepted(&self) -> bool {
        placeholders(self.0@) == 3
    }

    open spec fn makes(&self, w: Where) -> bool {
        w.expr_view() == weave(
            segments(self.0@),
            seq![self.1.where_text(), self.2.where_text(), self.3.where_text()],
        ) && w.values_view() == self.1.where_values() + self.2.where_values() + self.3.where_values()
            && w.kind_view() == BoolKind::And
    }

    open spec fn template(&self) -> Seq<char> {
        self.0@
    }

    open spec fn expected(&self) -> usize {
        3
    }

    fn try_into_where(self) -> (r: QResult<Where>) {
        Where::from_three(self.0, self.1, self.2, self.3)
    }
}

/// An argument brings as many placeholders as it binds values: true of every
/// scalar, and of a balanced fragment.
pub open spec fn balanced_arg<V: IntoWhere>(v: V) -> bool {
    placeholders(v.where_text()) == v.where_values().len()
}

/// A fragment built from a one-placeholder template binds the argument's
/// values, and holds one placeholder for each of them where the argument does.
pub proof fn law_fragment_from_one<'a, V1: IntoWhere>(t: (&'a str, V1), w: Where)
    requires
        t.accepted(),
        t.makes(w),
        balanced_arg(t.1),
    ensures
        w.values_view() == t.1.where_values(),
        w.balanced(),
{
    let fills = seq![t.1.where_text()];
    law_substitution_placeholders(t.0@, fills);
    reveal_with_fuel(fill_placeholders, 2);
    assert(piece(fills, 0) == t.1.where_text());
}

/// A fragment built from a two-placeholder template binds the arguments'
/// values left to right, and holds one placeholder for each of them where the
/// arguments do.
pub proof fn law_fragment_from_two<'a, V1: IntoWhere, V2: IntoWhere>(t: (&'a str, V1, V2), w: Where)
    requires
        t.accepted(),
        t.makes(w),
        balanced_arg(t.1),
        balanced_arg(t.2),
    ensures
        w.values_view() == t.1.where_values() + t.2.where_values(),
        w.balanced(),
{
    let fills = seq![t.1.where_text(), t.2.where_text()];
    law_substitution_placeholders(t.0@, fills);
    reveal_with_fuel(fill_placeholders, 3);
    assert(piece(fills, 0) == t.1.where_text());
    assert(piece(fills, 1) == t.2.where_text());
}

/// A fragment built from a three-placeholder template binds the arguments'
/// values left to right, and holds one placeholder for each of them where the
/// arguments do.
pub proof fn law_fragment_from_three<'a, V1: IntoWhere, V2: IntoWhere, V3: IntoWhere>(
    t: (&'a str, V1, V2, V3),
    w: Where,
)
    requires
        t.accepted(),
        t.makes(w),
        balanced_arg(t.1),
        balanced_arg(t.2),
        balanced_arg(t.3),
    ensures
        w.values_view() == t.1.where_values() + t.2.where_values() + t.3.where_values(),
        w.balanced(),
{
    let fills = seq![t.1.where_text(), t.2.where_text(), t.3.where_text()];
    law_substitution_placeholders(t.0@, fills);
    reveal_with_fuel(fill_placeholders, 4);
    assert(piece(fills, 0) == t.1.where_text());
    assert(piece(fills, 1) == t.2.where_text());
    assert(piece(fills, 2) == t.3.where_text());
}

/// Every scalar argument is balanced.
pub proof fn law_scalar_balanced(v: SQLValue)
    ensures
        balanced_arg(v),
{
    reveal_with_fuel(crate::text::count_char, 2);
    assert(seq!['?'].drop_last() =~= Seq::<char>::empty());
}

/// The separator that chains a fragment with connective `k` to what precedes it.
pub open spec fn link(k: BoolKind) -> Seq<char> {
    seq![' '] + kind_word(k) + seq![' ']
}

/// Accumulates fragments into one compound fragment.
pub struct WhereBuilder {
    expr: String,
    values: Vec<SQLValue>,
    count: usize,
    kind: BoolKind,
}

impl WhereBuilder {
    /// The expression accumulated so far.
    pub closed spec fn expr_view(&self) -> Seq<char> {
        self.expr@
    }

    /// The values accumulated so far.
    pub closed spec fn values_view(&self) -> Seq<BindValue> {
        bind_views(self.values@)
    }

    /// Whether a fragment was added yet.
    pub closed spec fn started(&self) -> bool {
        self.count > 0
    }

    /// The connective of the fragment that `build` yields.
    pub closed spec fn kind_view(&self) -> BoolKind {
        self.kind
    }

    /// An empty builder, linked by `and`.
    pub fn new() -> (r: Self)
        ensures
            r.expr_view().len() == 0,
            r.values_view().len() == 0,
            !r.started(),
            r.kind_view() == BoolKind::And,
    {
        WhereBuilder { expr: String::new(), values: Vec::new(), count: 0, kind: BoolKind::And }
    }

    fn add(self, w: Where, k: BoolKind) -> (r: Self)
        ensures
            r.expr_view() == self.expr_view() + (if self.started() { link(k) } else { Seq::empty() })
                + w.expr_view(),
            r.values_view() == self.values_view() + w.values_view(),
            r.started(),
            r.kind_view() == self.kind_view(),
    {
        let mut b = self;
        let ghost e0 = b.expr@;
        let ghost started0 = b.count > 0;
        if b.count > 0 {
            b.expr.append(" ");
            b.expr.append(k.as_str());
            b.expr.append(" ");
            proof {
                reveal_strlit(" ");
            }
        }
        let _ = w.into_where(&mut b.expr, &mut b.values);
        if b.count < usize::MAX {
            b.count = b.count + 1;
        }
        proof {
            assert(b.expr@ =~= e0 + (if started0 { link(k) } else { Seq::empty() })
                + w.expr_view());
        }
        b
    }

    /// Builds a fragment from `v` and adds it, linked to the fragments
    /// before it by `and`; fails, leaving nothing built, where `v` does.
    pub fn where_<T: TryIntoWhere>(self, v: T) -> (r: QResult<Self>)
        ensures
            r is Ok <==> v.accepted(),
            r matches Err(QueryError::IncorrectPlaceholderCount(t, n)) ==> t@ == v.template()
                && n == v.expected(),
            r matches Ok(b) ==> exists|w: Where|
                v.makes(w) && b.expr_view() == self.expr_view() + (if self.started() {
                    link(BoolKind::And)
                } else {
                    Seq::empty()
                }) + w.expr_view() && b.values_view() == self.values_view() + w.values_view()
                    && b.started() && b.kind_view() == self.kind_view(),
    {
        let w = v.try_into_where()?;
        Ok(self.add(w, BoolKind::And))
    }

    /// Builds a fragment from `v` and adds it, linked to the fragments
    /// before it by `or`; fails, leaving nothing built, where `v` does.
    pub fn or_where<T: TryIntoWhere>(self, v: T) -> (r: QResult<Self>)
        ensures
            r is Ok <==> v.accepted(),
            r matches Err(QueryError::IncorrectPlaceholderCount(t, n)) ==> t@ == v.template()
                && n == v.expected(),
            r matches Ok(b) ==> exists|w: Where|
                v.makes(w) && b.expr_view() == self.expr_view() + (if self.started() {
                    link(BoolKind::Or)
                } else {
                    Seq::empty()
                }) + w.expr_view() && b.values_view() == self.values_view() + w.values_view()
                    && b.started() && b.kind_view() == self.kind_view(),
    {
        let w = v.try_into_where()?;
        Ok(self.add(w, BoolKind::Or))
    }

    /// Sets the connective of the fragment that `build` yields.
    pub fn kind(self, kind: BoolKind) -> (r: Self)
        ensures
            r.expr_view() == self.expr_view(),
            r.values_view() == self.values_view(),
            r.started() == self.started(),
            r.kind_view() == kind,
    {
        let mut b = self;
        b.kind = kind;
        b
    }

    /// The compound fragment.
    pub fn build(self) -> (r: Where)
        ensures
            r.expr_view() == self.expr_view(),
            r.values_view() == self.values_view(),
            r.kind_view() == self.kind_view(),
    {
        Where::Simple { expr: self.expr, values: self.values, kind: self.kind }
    }
}

/// Copies a list of values.
pub(crate) fn copy_values(v: &Vec<SQLValue>) -> (r: Vec<SQLValue>)
    ensures
        bind_views(r@) == bind_views(v@),
{
    let mut out: Vec<SQLValue> = Vec::new();
    let mut i: usize = 0;
    while i < v.len()
        invariant
            i <= v.len(),
            bind_views(out@) == bind_views(v@.subrange(0, i as int)),
        decreases v.len() - i,
    {
        let ghost before = out@;
        out.push(v[i].clone());
        proof {
            assert(v@.subrange(0, i as int + 1) =~= v@.subrange(0, i as int).push(v@[i as int]));
            assert(bind_views(out@) =~= bind_views(before).push(v@[i as int]@));
        }
        i = i + 1;
    }
    assert(v@.subrange(0, i as int) =~= v@);
    out
}

impl Clone for Where {
    fn clone(&self) -> (r: Self)
        ensures
            r.expr_view() == self.expr_view(),
            r.values_view() == self.values_view(),
            r.kind_view() == self.kind_view(),
    {
        match self {
            Where::Simple { expr, values, kind } => Where::Simple {
                expr: expr.clone(),
                values: copy_values(values),
                kind: *kind,
            },
        }
    }
}

} // verus!

//! The statement builder and its rendering into one template and one list of
//! values.
use vstd::prelude::*;
use crate::error::{QResult, QueryError};
use crate::group_by::IntoGroupBy;
use crate::join::{Join, JoinKind, TryIntoJoin, join_word};
use crate::optional_num::IntoOptional;
use crate::select::IntoSelect;
use crate::order::{OrderDir, dir_word};
use crate::predicate::{TryIntoWhere, Where, link};
use crate::sql_value::{BindValue, SQLValue, bind_views, lemma_bind_views_append};
use crate::bool_kind::{BoolKind, kind_word};
use crate::text::{
    comma, fill_placeholders, joined, law_substitution_placeholders, lemma_count_concat,
    lemma_joined_plain, lemma_no_marker, lemma_segments_len, lemma_segments_plain,
    lemma_trimmed_placeholders, marker, piece, placeholders, segments, split_placeholders, trim_str,
    trimmed, views, weave, weave_upto,
};

verus! {

/// A `select` statement under construction.
#[derive(Debug)]
pub struct Select {
    table: Option<TableType>,
    select: Vec<String>,
    join: Vec<(JoinKind, Join)>,
    where_: Vec<Where>,
    order_by: Option<(String, OrderDir)>,
    group_by: Option<String>,
    limit: Option<u64>,
    offset: Option<u64>,
}

/// The source of a statement: a literal name, or a template whose
/// placeholders nested statements fill in order.
#[derive(Debug)]
pub enum TableType {
    Simple(String),
    Complex(String, Vec<Select>),
}

/// Something a source can be made from: a literal name, or a template with
/// the statement that fills its placeholder.
pub trait IntoTable: Sized {
    /// Whether `t` is the source made.
    spec fn makes(&self, t: TableType) -> bool;

    /// Makes the source.
    fn into_table(self) -> (r: TableType)
        ensures
            self.makes(r),
    ;
}

impl IntoTable for TableType {
    open spec fn makes(&self, t: TableType) -> bool {
        t == *self
    }

    fn into_table(self) -> (r: TableType) {
        self
    }
}

impl<'a> IntoTable for &'a str {
    open spec fn makes(&self, t: TableType) -> bool {
        t matches TableType::Simple(n) && n@ == self@
    }

    fn into_table(self) -> (r: TableType) {
        TableType::Simple(String::from_str(self))
    }
}

impl IntoTable for String {
    open spec fn makes(&self, t: TableType) -> bool {
        t matches TableType::Simple(n) && n@ == self@
    }

    fn into_table(self) -> (r: TableType) {
        TableType::Simple(self)
    }
}

impl<'a> IntoTable for &'a String {
    open spec fn makes(&self, t: TableType) -> bool {
        t matches TableType::Simple(n) && n@ == self@
    }

    fn into_table(self) -> (r: TableType) {
        TableType::Simple(self.clone())
    }
}

impl<'a> IntoTable for (&'a str, Select) {
    open spec fn makes(&self, t: TableType) -> bool {
        t matches TableType::Complex(tpl, subs) && tpl@ == self.0@ && subs@ == seq![self.1]
    }

    fn into_table(self) -> (r: TableType) {
        let mut subs: Vec<Select> = Vec::new();
        subs.push(self.1);
        assert(subs@ =~= seq![self.1]);
        TableType::Complex(String::from_str(self.0), subs)
    }
}

impl Select {
    /// The source, if one is set.
    pub closed spec fn source(&self) -> Option<TableType> {
        self.table
    }

    /// The output columns, in order.
    pub closed spec fn columns(&self) -> Seq<Seq<char>> {
        views(self.select@)
    }

    /// The joins, in order.
    pub closed spec fn joins(&self) -> Seq<(JoinKind, Join)> {
        self.join@
    }

    /// The predicate fragments, in order.
    pub closed spec fn wheres(&self) -> Seq<Where> {
        self.where_@
    }

    /// The ordering column and direction, if set.
    pub closed spec fn ordering(&self) -> Option<(Seq<char>, OrderDir)> {
        match self.order_by {
            Some((c, d)) => Some((c@, d)),
            None => None,
        }
    }

    /// The grouping expression, if set.
    pub closed spec fn grouping(&self) -> Option<Seq<char>> {
        match self.group_by {
            Some(g) => Some(g@),
            None => None,
        }
    }

    /// The row limit, if set.
    pub closed spec fn limit_view(&self) -> Option<u64> {
        self.limit
    }

    /// The row offset, if set.
    pub closed spec fn offset_view(&self) -> Option<u64> {
        self.offset
    }
}

/// The output column list: the columns joined by commas, or the wildcard.
pub open spec fn columns_text(cols: Seq<Seq<char>>) -> Seq<char> {
    if cols.len() == 0 {
        seq!['*']
    } else {
        joined(cols, comma())
    }
}

/// The predicates in order, each after the connective of its own tag.
pub open spec fn where_body(ws: Seq<Where>) -> Seq<char>
    decreases ws.len(),
{
    if ws.len() == 0 {
        Seq::empty()
    } else if ws.len() == 1 {
        ws[0].expr_view()
    } else {
        where_body(ws.drop_last()) + link(ws.last().kind_view()) + ws.last().expr_view()
    }
}

/// The `where` clause; nothing where there are no predicates.
pub open spec fn where_text(ws: Seq<Where>) -> Seq<char> {
    if ws.len() == 0 {
        Seq::empty()
    } else {
        " where "@ + where_body(ws) + seq![' ']
    }
}

/// The values of the predicates, in order.
pub open spec fn where_values(ws: Seq<Where>) -> Seq<BindValue>
    decreases ws.len(),
{
    if ws.len() == 0 {
        Seq::empty()
    } else {
        where_values(ws.drop_last()) + ws.last().values_view()
    }
}

/// The `group by` clause, if one is set.
pub open spec fn group_text(g: Option<Seq<char>>) -> Seq<char> {
    match g {
        Some(g) => " group by "@ + g + seq![' '],
        None => Seq::empty(),
    }
}

/// The `order by` clause, if one is set.
pub open spec fn order_text(o: Option<(Seq<char>, OrderDir)>) -> Seq<char> {
    match o {
        Some((c, d)) => " order by "@ + c + seq![' '] + dir_word(d) + seq![' '],
        None => Seq::empty(),
    }
}

/// The `limit` clause, if a limit is set.
pub open spec fn limit_text(l: Option<u64>) -> Seq<char> {
    match l {
        Some(_) => " limit ?"@,
        None => Seq::empty(),
    }
}

/// The `offset` clause, if an offset is set.
pub open spec fn offset_text(l: Option<u64>) -> Seq<char> {
    match l {
        Some(_) => " offset ?"@,
        None => Seq::empty(),
    }
}

/// The value that a pagination bound binds, if it is set.
pub open spec fn bound_values(l: Option<u64>) -> Seq<BindValue> {
    match l {
        Some(n) => seq![BindValue::U64(n)],
        None => Seq::empty(),
    }
}

/// The view of an optional string.
pub open spec fn opt_view(g: Option<String>) -> Option<Seq<char>> {
    match g {
        Some(g) => Some(g@),
        None => None,
    }
}

/// The rendered template of `s`, clause by clause in a fixed order.
pub open spec fn text_of(s: Select) -> Seq<char>
    decreases s, 0nat,
{
    let source = match s.source() {
        Some(t) => table_text(t),
        None => Seq::empty(),
    };
    "select "@ + columns_text(s.columns()) + " from "@ + source + joins_text(s.joins(), s.joins().len())
        + where_text(s.wheres()) + group_text(s.grouping()) + order_text(s.ordering()) + limit_text(
        s.limit_view(),
    ) + offset_text(s.offset_view())
}

/// The rendered source: a literal name, or the template with the nested
/// statements' texts in its placeholders, left to right.
pub open spec fn table_text(t: TableType) -> Seq<char>
    decreases t, 0nat,
{
    match t {
        TableType::Simple(n) => n@,
        TableType::Complex(tpl, subs) => weave(segments(tpl@), subs_texts(subs@, subs@.len())),
    }
}

/// The rendered templates of the first `n` statements of `v`.
pub open spec fn subs_texts(v: Seq<Select>, n: nat) -> Seq<Seq<char>>
    decreases v, n,
{
    if n == 0 || n > v.len() {
        Seq::empty()
    } else {
        subs_texts(v, (n - 1) as nat).push(text_of(v[n - 1]))
    }
}

/// The first `n` joins rendered: the kind, `join`, and the literal clause
/// or the template's first two segments around the trimmed nested text.
pub open spec fn joins_text(js: Seq<(JoinKind, Join)>, n: nat) -> Seq<char>
    decreases js, n,
{
    if n == 0 || n > js.len() {
        Seq::empty()
    } else {
        let clause = match js[n - 1].1 {
            Join::Simple(c) => c@,
            Join::SubQuery(tpl, sub) => piece(segments(tpl@), 0) + trimmed(text_of(*sub)) + piece(
                segments(tpl@),
                1,
            ),
        };
        joins_text(js, (n - 1) as nat) + " "@ + join_word(js[n - 1].0) + " join "@ + clause
    }
}

/// The values that `s` binds, in the order of their placeholders.
pub open spec fn values_of(s: Select) -> Seq<BindValue>
    decreases s, 0nat,
{
    let source = match s.source() {
        Some(t) => table_values(t),
        None => Seq::empty(),
    };
    source + joins_values(s.joins(), s.joins().len()) + where_values(s.wheres()) + bound_values(
        s.limit_view(),
    ) + bound_values(s.offset_view())
}

/// The values of the source.
pub open spec fn table_values(t: TableType) -> Seq<BindValue>
    decreases t, 0nat,
{
    match t {
        TableType::Simple(_) => Seq::empty(),
        TableType::Complex(_, subs) => subs_values(subs@, subs@.len()),
    }
}

/// The values of the first `n` statements of `v`.
pub open spec fn subs_values(v: Seq<Select>, n: nat) -> Seq<BindValue>
    decreases v, n,
{
    if n == 0 || n > v.len() {
        Seq::empty()
    } else {
        subs_values(v, (n - 1) as nat) + values_of(v[n - 1])
    }
}

/// The values of the first `n` joins.
pub open spec fn joins_values(js: Seq<(JoinKind, Join)>, n: nat) -> Seq<BindValue>
    decreases js, n,
{
    if n == 0 || n > js.len() {
        Seq::empty()
    } else {
        let clause = match js[n - 1].1 {
            Join::Simple(_) => Seq::empty(),
            Join::SubQuery(_, sub) => values_of(*sub),
        };
        joins_values(js, (n - 1) as nat) + clause
    }
}

/// `s` and every statement nested in it have a source.
pub open spec fn sourced(s: Select) -> bool
    decreases s, 0nat,
{
    let source = match s.source() {
        Some(t) => table_sourced(t),
        None => false,
    };
    source && joins_sourced(s.joins(), s.joins().len())
}

/// Every statement nested in the source has a source.
pub open spec fn table_sourced(t: TableType) -> bool
    decreases t, 0nat,
{
    match t {
        TableType::Simple(_) => true,
        TableType::Complex(_, subs) => subs_sourced(subs@, subs@.len()),
    }
}

/// The first `n` statements of `v` are sourced.
pub open spec fn subs_sourced(v: Seq<Select>, n: nat) -> bool
    decreases v, n,
{
    if n == 0 || n > v.len() {
        true
    } else {
        subs_sourced(v, (n - 1) as nat) && sourced(v[n - 1])
    }
}

/// The statements nested in the first `n` joins are sourced.
pub open spec fn joins_sourced(js: Seq<(JoinKind, Join)>, n: nat) -> bool
    decreases js, n,
{
    if n == 0 || n > js.len() {
        true
    } else {
        let clause = match js[n - 1].1 {
            Join::Simple(_) => true,
            Join::SubQuery(_, sub) => sourced(*sub),
        };
        joins_sourced(js, (n - 1) as nat) && clause
    }
}

/// A rendered statement opens with its output columns: comma-separated in
/// insertion order, or the wildcard where there are none.
#[verifier::rlimit(40)]
pub proof fn law_column_list(s: Select)
    ensures
        exists|rest: Seq<char>| text_of(s) == "select "@ + columns_text(s.columns()) + " from "@ + rest,
{
    let source = match s.source() {
        Some(t) => table_text(t),
        None => Seq::empty(),
    };
    let rest = source + joins_text(s.joins(), s.joins().len()) + where_text(s.wheres()) + group_text(
        s.grouping(),
    ) + order_text(s.ordering()) + limit_text(s.limit_view()) + offset_text(s.offset_view());
    let a = "select "@ + columns_text(s.columns()) + " from "@;
    assert(text_of(s) == a + source + joins_text(s.joins(), s.joins().len()) + where_text(s.wheres())
        + group_text(s.grouping()) + order_text(s.ordering()) + limit_text(s.limit_view())
        + offset_text(s.offset_view()));
    assert(text_of(s) =~= a + rest);
}

/// Between two adjacent predicates stands the connective of the later one's
/// own tag, whatever the earlier one's tag is.
pub proof fn law_connective_of_later(ws: Seq<Where>, i: int)
    requires
        0 < i < ws.len(),
    ensures
        where_body(ws.subrange(0, i + 1)) == where_body(ws.subrange(0, i)) + link(ws[i].kind_view())
            + ws[i].expr_view(),
{
    assert(ws.subrange(0, i + 1).drop_last() =~= ws.subrange(0, i));
}

/// The predicates of a statement render after `where`, followed by one space.
#[verifier::rlimit(40)]
pub proof fn law_where_clause(s: Select)
    requires
        s.wheres().len() > 0,
    ensures
        exists|head: Seq<char>, tail: Seq<char>|
            text_of(s) == head + " where "@ + where_body(s.wheres()) + seq![' '] + tail,
{
    let source = match s.source() {
        Some(t) => table_text(t),
        None => Seq::empty(),
    };
    let head = "select "@ + columns_text(s.columns()) + " from "@ + source + joins_text(
        s.joins(),
        s.joins().len(),
    );
    let tail = group_text(s.grouping()) + order_text(s.ordering()) + limit_text(s.limit_view())
        + offset_text(s.offset_view());
    assert(text_of(s) == head + where_text(s.wheres()) + tail);
    assert(text_of(s) =~= head + " where "@ + where_body(s.wheres()) + seq![' '] + tail);
}

/// Adding a predicate tagged `or` to a statement that has predicates (what
/// `or_where` does) extends the rendered `where` clause by `or` and the new
/// expression, whatever the earlier predicates' tags; the rest of the text
/// stays, and the new values come after the earlier predicates' values.
#[verifier::rlimit(40)]
pub proof fn law_or_where_extends(s: Select, t: Select)
    requires
        s.wheres().len() > 0,
        t.wheres().len() == s.wheres().len() + 1,
        t.wheres().drop_last() == s.wheres(),
        t.wheres().last().kind_view() == BoolKind::Or,
        t.source() == s.source(),
        t.columns() == s.columns(),
        t.joins() == s.joins(),
        t.ordering() == s.ordering(),
        t.grouping() == s.grouping(),
        t.limit_view() == s.limit_view(),
        t.offset_view() == s.offset_view(),
    ensures
        exists|head: Seq<char>, tail: Seq<char>|
            {
                &&& text_of(s) == head + " where "@ + where_body(s.wheres()) + seq![' '] + tail
                &&& text_of(t) == head + " where "@ + where_body(s.wheres()) + " or "@
                    + t.wheres().last().expr_view() + seq![' '] + tail
            },
        where_values(t.wheres()) == where_values(s.wheres()) + t.wheres().last().values_view(),
{
    let source = match s.source() {
        Some(tt) => table_text(tt),
        None => Seq::empty(),
    };
    let head = "select "@ + columns_text(s.columns()) + " from "@ + source + joins_text(
        s.joins(),
        s.joins().len(),
    );
    let tail = group_text(s.grouping()) + order_text(s.ordering()) + limit_text(s.limit_view())
        + offset_text(s.offset_view());
    reveal_strlit(" or ");
    reveal_strlit(" ");
    assert(" or "@ =~= link(BoolKind::Or));
    let ws = t.wheres();
    let body = where_body(s.wheres());
    let e = ws.last().expr_view();
    assert(where_body(ws) == body + link(BoolKind::Or) + e);
    assert(where_text(ws) == " where "@ + (body + link(BoolKind::Or) + e) + seq![' ']);
    assert(text_of(t) == head + where_text(ws) + tail);
    assert(text_of(s) == head + where_text(s.wheres()) + tail);
    assert(text_of(s) =~= head + " where "@ + body + seq![' '] + tail);
    assert(text_of(t) =~= head + " where "@ + body + " or "@ + e + seq![' '] + tail);
}

/// Rendering depends on the statement alone: equal statements render to the
/// same template and the same values.
pub proof fn law_render_deterministic(a: Select, b: Select)
    requires
        a == b,
    ensures
        text_of(a) == text_of(b),
        values_of(a) == values_of(b),
{
}

/// The first `n` nested texts are the texts of the first `n` nested
/// statements, and they are sourced where the list is.
proof fn lemma_subs(v: Seq<Select>, n: nat)
    requires
        n <= v.len(),
    ensures
        subs_texts(v, n).len() == n,
        forall|i: int| 0 <= i < n ==> subs_texts(v, n)[i] == text_of(#[trigger] v[i]),
        subs_sourced(v, n) ==> forall|i: int| 0 <= i < n ==> sourced(#[trigger] v[i]),
    decreases n,
{
    if n > 0 {
        lemma_subs(v, (n - 1) as nat);
    }
}

/// The statements nested in the first `n` joins are sourced where the list is.
proof fn lemma_joins_sourced(js: Seq<(JoinKind, Join)>, n: nat)
    requires
        n <= js.len(),
        joins_sourced(js, n),
    ensures
        forall|i: int| 0 <= i < n ==> ((#[trigger] js[i]).1 matches Join::SubQuery(_, sub) ==> sourced(*sub)),
    decreases n,
{
    if n > 0 {
        lemma_joins_sourced(js, (n - 1) as nat);
    }
}

/// Appends the column list.
fn push_columns(cols: &Vec<String>, q: &mut String)
    ensures
        final(q)@ == old(q)@ + columns_text(views(cols@)),
{
    if cols.len() == 0 {
        proof {
            reveal_strlit("*");
        }
        q.append("*");
    } else {
        proof {
            reveal_strlit(", ");
            assert(", "@ =~= comma());
        }
        let ghost q0 = q@;
        let ghost cv = views(cols@);
        let mut i: usize = 0;
        assert(cv.subrange(0, 0) =~= Seq::<Seq<char>>::empty());
        while i < cols.len()
            invariant
                ", "@ == comma(),
                cv == views(cols@),
                i <= cols.len(),
                q@ == q0 + joined(cv.subrange(0, i as int), comma()),
            decreases cols.len() - i,
        {
            let ghost before = q@;
            if i > 0 {
                q.append(", ");
            }
            q.append(cols[i].as_str());
            proof {
                let pre = cv.subrange(0, i as int + 1);
                assert(pre.drop_last() =~= cv.subrange(0, i as int));
                assert(pre.last() == cols@[i as int]@);
                assert(q@ =~= q0 + joined(pre, comma()));
            }
            i = i + 1;
        }
        assert(cv.subrange(0, cols.len() as int) =~= cv);
    }
}

/// Appends the `where` clause and the predicates' values.
fn push_where(ws: Vec<Where>, q: &mut String, vals: &mut Vec<SQLValue>)
    ensures
        final(q)@ == old(q)@ + where_text(ws@),
        bind_views(final(vals)@) == bind_views(old(vals)@) + where_values(ws@),
{
    let ghost orig = ws@;
    if ws.len() == 0 {
        return;
    }
    proof {
        reveal_strlit(" ");
        assert(" "@ =~= seq![' ']);
    }
    q.append(" where ");
    let ghost q1 = q@;
    let ghost v0 = bind_views(vals@);
    let n = ws.len();
    let mut rest = ws;
    let mut i: usize = 0;
    assert(orig.subrange(0, 0) =~= Seq::<Where>::empty());
    assert(orig.subrange(0, n as int) =~= orig);
    while i < n
        invariant
            " "@ == seq![' '],
            n == orig.len(),
            i <= n,
            rest@ == orig.subrange(i as int, n as int),
            q@ == q1 + where_body(orig.subrange(0, i as int)),
            bind_views(vals@) == v0 + where_values(orig.subrange(0, i as int)),
        decreases n - i,
    {
        let w = rest.remove(0);
        let ghost pre = orig.subrange(0, i as int + 1);
        proof {
            assert(w == orig[i as int]);
            assert(pre.drop_last() =~= orig.subrange(0, i as int));
            assert(pre.last() == w);
        }
        match w {
            Where::Simple { expr, values, kind } => {
                if i > 0 {
                    q.append(" ");
                    q.append(kind.as_str());
                    q.append(" ");
                }
                q.append(expr.as_str());
                let ghost before = vals@;
                let mut values = values;
                let ghost added = values@;
                vals.append(&mut values);
                proof {
                    lemma_bind_views_append(before, added);
                }
            },
        }
        proof {
            assert(rest@ =~= orig.subrange(i as int + 1, n as int));
            assert(q@ =~= q1 + where_body(pre));
        }
        i = i + 1;
    }
    q.append(" ");
}

/// Appends the source, rendering each nested statement in its slot.
#[verifier::rlimit(40)]
fn render_table(table: TableType, q: &mut String, vals: &mut Vec<SQLValue>)
    requires
        table_sourced(table),
    ensures
        final(q)@ == old(q)@ + table_text(table),
        bind_views(final(vals)@) == bind_views(old(vals)@) + table_values(table),
    decreases table,
{
    let ghost t0 = table;
    match table {
        TableType::Simple(n) => {
            q.append(n.as_str());
            assert(bind_views(vals@) =~= bind_views(old(vals)@) + table_values(t0));
        },
        TableType::Complex(tpl, subs) => {
            let segs = split_placeholders(tpl.as_str());
            let ghost orig = subs;
            let ghost fills = subs_texts(orig@, orig.len() as nat);
            proof {
                lemma_subs(orig@, orig.len() as nat);
            }
            let n_segs = segs.len();
            let n_subs = subs.len();
            let rounds = if n_segs >= n_subs {
                n_segs
            } else {
                n_subs
            };
            let mut rest = subs;
            let ghost q0 = q@;
            let ghost v0 = bind_views(vals@);
            let mut k: usize = 0;
            assert(orig@.subrange(0, n_subs as int) =~= orig@);
            while k < rounds
                invariant
                    n_segs == segs@.len(),
                    n_subs == orig.len(),
                    rounds == (if n_segs >= n_subs { n_segs } else { n_subs }),
                    k <= rounds,
                    t0 == TableType::Complex(tpl, orig),
                    t0 == table,
                    fills == subs_texts(orig@, n_subs as nat),
                    fills.len() == n_subs,
                    forall|i: int| 0 <= i < n_subs ==> fills[i] == text_of(#[trigger] orig@[i]),
                    forall|i: int| 0 <= i < n_subs ==> sourced(#[trigger] orig@[i]),
                    q@ == q0 + weave_upto(views(segs@), fills, k as nat),
                    bind_views(vals@) == v0 + subs_values(
                        orig@,
                        if k <= n_subs { k as nat } else { n_subs as nat },
                    ),
                    rest@ == orig@.subrange(if k <= n_subs { k as int } else { n_subs as int }, n_subs as int),
                decreases rounds - k,
            {
                let ghost qk = q@;
                if k < n_segs {
                    q.append(segs[k].as_str());
                }
                let ghost qs = q@;
                proof {
                    assert(qs == qk + piece(views(segs@), k as int));
                }
                if k < n_subs {
                    let sub = rest.remove(0);
                    proof {
                        assert(sub == orig@[k as int]);
                        vstd::std_specs::vec::axiom_vec_index_decreases(orig, k as int);
                        assert(decreases_to!(t0 => t0->Complex_1));
                        assert(decreases_to!(orig => orig[k as int]));
                        assert(decreases_to!(t0 => sub));
                    }
                    let (sq, sv) = sub.parts();
                    q.append(sq.as_str());
                    let ghost before = vals@;
                    let mut sv = sv;
                    let ghost added = sv@;
                    vals.append(&mut sv);
                    proof {
                        lemma_bind_views_append(before, added);
                        assert(rest@ =~= orig@.subrange(k as int + 1, n_subs as int));
                    }
                } else {
                    assert(piece(fills, k as int) =~= Seq::<char>::empty());
                }
                proof {
                    assert(q@ =~= q0 + weave_upto(views(segs@), fills, (k + 1) as nat));
                }
                k = k + 1;
            }
        },
    }
}

/// Appends the joins, rendering each nested statement in its slot.
fn render_joins(js: Vec<(JoinKind, Join)>, q: &mut String, vals: &mut Vec<SQLValue>)
    requires
        joins_sourced(js@, js.len() as nat),
    ensures
        final(q)@ == old(q)@ + joins_text(js@, js.len() as nat),
        bind_views(final(vals)@) == bind_views(old(vals)@) + joins_values(js@, js.len() as nat),
    decreases js,
{
    let ghost orig = js;
    let n = js.len();
    proof {
        lemma_joins_sourced(orig@, n as nat);
        reveal_strlit(" ");
    }
    let mut rest = js;
    let ghost q0 = q@;
    let ghost v0 = bind_views(vals@);
    let mut i: usize = 0;
    assert(orig@.subrange(0, n as int) =~= orig@);
    while i < n
        invariant
            n == orig.len(),
            orig == js,
            i <= n,
            forall|j: int| 0 <= j < n ==> ((#[trigger] orig@[j]).1 matches Join::SubQuery(_, sub) ==> sourced(*sub)),
            rest@ == orig@.subrange(i as int, n as int),
            q@ == q0 + joins_text(orig@, i as nat),
            bind_views(vals@) == v0 + joins_values(orig@, i as nat),
        decreases n - i,
    {
        let (kind, join) = rest.remove(0);
        proof {
            assert((kind, join) == orig@[i as int]);
            vstd::std_specs::vec::axiom_vec_index_decreases(orig, i as int);
            assert(decreases_to!(orig => orig@[i as int]));
            assert(rest@ =~= orig@.subrange(i as int + 1, n as int));
        }
        q.append(" ");
        q.append(kind.as_str());
        q.append(" join ");
        match join {
            Join::Simple(c) => {
                q.append(c.as_str());
                assert(bind_views(vals@) =~= v0 + joins_values(orig@, (i + 1) as nat));
            },
            Join::SubQuery(tpl, sub) => {
                let segs = split_placeholders(tpl.as_str());
                proof {
                    lemma_segments_len(tpl@);
                    let ghost entry = orig@[i as int];
                    assert(decreases_to!(orig => orig[i as int]));
                    assert(decreases_to!(entry => entry.1));
                    assert(decreases_to!(entry.1 => entry.1->SubQuery_1));
                    assert(decreases_to!(orig => *sub));
                }
                let (sq, sv) = (*sub).parts();
                q.append(segs[0].as_str());
                q.append(trim_str(sq.as_str()));
                if segs.len() > 1 {
                    q.append(segs[1].as_str());
                }
                let ghost before = vals@;
                let mut sv = sv;
                let ghost added = sv@;
                vals.append(&mut sv);
                proof {
                    lemma_bind_views_append(before, added);
                    assert(views(segs@)[0] == segs@[0]@);
                    if segs.len() > 1 {
                        assert(views(segs@)[1] == segs@[1]@);
                    }
                }
            },
        }
        proof {
            assert(q@ =~= q0 + joins_text(orig@, (i + 1) as nat));
        }
        i = i + 1;
    }
}

/// Appends the `group by` clause, if one is set.
fn push_group(g: Option<String>, q: &mut String)
    ensures
        final(q)@ == old(q)@ + group_text(opt_view(g)),
{
    proof {
        reveal_strlit(" ");
    }
    match g {
        Some(g) => {
            q.append(" group by ");
            q.append(g.as_str());
            q.append(" ");
        },
        None => {},
    }
}

/// Appends the `order by` clause, if one is set.
fn push_order(o: Option<(String, OrderDir)>, q: &mut String)
    ensures
        final(q)@ == old(q)@ + order_text(
            match o {
                Some((c, d)) => Some((c@, d)),
                None => None,
            },
        ),
{
    proof {
        reveal_strlit(" ");
    }
    match o {
        Some((c, d)) => {
            q.append(" order by ");
            q.append(c.as_str());
            q.append(" ");
            q.append(d.as_str());
            q.append(" ");
        },
        None => {},
    }
}

/// Appends a pagination clause `clause` and its value, if a bound is set.
fn push_bound(l: Option<u64>, clause: &str, q: &mut String, vals: &mut Vec<SQLValue>)
    ensures
        final(q)@ == old(q)@ + match l {
            Some(_) => clause@,
            None => Seq::empty(),
        },
        bind_views(final(vals)@) == bind_views(old(vals)@) + bound_values(l),
{
    let ghost v0 = vals@;
    match l {
        Some(n) => {
            q.append(clause);
            vals.push(SQLValue::U64(n));
            proof {
                lemma_bind_views_append(v0, seq![SQLValue::U64(n)]);
                assert(vals@ =~= v0 + seq![SQLValue::U64(n)]);
            }
        },
        None => {
            assert(bind_views(vals@) =~= bind_views(v0) + bound_values(l));
        },
    }
}

impl Select {
    /// Renders the statement: the template, with the generic placeholder
    /// wherever a value binds, and the values in the order of their
    /// placeholders.
    pub fn parts(self) -> (r: (String, Vec<SQLValue>))
        requires
            sourced(self),
        ensures
            r.0@ == text_of(self),
            bind_views(r.1@) == values_of(self),
        decreases self,
    {
        let ghost s0 = self;
        let Select { table, select, join, where_, order_by, group_by, limit, offset } = self;
        proof {
            reveal_strlit(" ");
        }
        let mut q = String::from_str("select ");
        let mut vals: Vec<SQLValue> = Vec::new();
        push_columns(&select, &mut q);
        q.append(" from ");
        match table {
            Some(t) => render_table(t, &mut q, &mut vals),
            None => {},
        }
        render_joins(join, &mut q, &mut vals);
        push_where(where_, &mut q, &mut vals);
        push_group(group_by, &mut q);
        push_order(order_by, &mut q);
        push_bound(limit, " limit ?", &mut q, &mut vals);
        push_bound(offset, " offset ?", &mut q, &mut vals);
        proof {
            assert(bind_views(Seq::<SQLValue>::empty()) =~= Seq::<BindValue>::empty());
            assert(q@ =~= text_of(s0));
            assert(bind_views(vals@) =~= values_of(s0));
        }
        (q, vals)
    }
}

impl Select {
    /// `self` and `other` agree on all but the source.
    pub open spec fn same_clauses(&self, other: &Select) -> bool {
        &&& self.columns() == other.columns()
        &&& self.joins() == other.joins()
        &&& self.wheres() == other.wheres()
        &&& self.ordering() == other.ordering()
        &&& self.grouping() == other.grouping()
        &&& self.limit_view() == other.limit_view()
        &&& self.offset_view() == other.offset_view()
    }

    /// An empty statement: no source, all columns, no clauses.
    pub fn new() -> (r: Self)
        ensures
            r.source() is None,
            r.columns().len() == 0,
            r.joins().len() == 0,
            r.wheres().len() == 0,
            r.ordering() is None,
            r.grouping() is None,
            r.limit_view() is None,
            r.offset_view() is None,
    {
        let r = Select {
            table: None,
            select: Vec::new(),
            join: Vec::new(),
            where_: Vec::new(),
            order_by: None,
            group_by: None,
            limit: None,
            offset: None,
        };
        assert(views(r.select@) =~= Seq::<Seq<char>>::empty());
        r
    }

    /// An empty statement over the source that `table` makes.
    pub fn from<T: IntoTable>(table: T) -> (r: Self)
        ensures
            r.source() matches Some(t) && table.makes(t),
            r.columns().len() == 0,
            r.joins().len() == 0,
            r.wheres().len() == 0,
            r.ordering() is None,
            r.grouping() is None,
            r.limit_view() is None,
            r.offset_view() is None,
    {
        let q = Self::new();
        q.table(table)
    }

    /// Sets the source to what `table` makes, replacing any earlier one.
    pub fn table<T: IntoTable>(self, table: T) -> (r: Self)
        ensures
            r.source() matches Some(t) && table.makes(t),
            r.same_clauses(&self),
    {
        let mut s = self;
        s.table = Some(table.into_table());
        s
    }

    /// Adds a left join built from `join`; fails, leaving nothing built,
    /// where building the clause does.
    pub fn left_join<T: TryIntoJoin>(self, join: T) -> (r: QResult<Self>)
        ensures
            r is Ok <==> join.accepted(),
            r matches Err(QueryError::IncorrectPlaceholderCount(t, n)) ==> t@ == join.template() && n == 1,
            r matches Ok(s) ==> s.source() == self.source() && s.columns() == self.columns()
                && s.joins().len() == self.joins().len() + 1
                && s.joins().drop_last() == self.joins()
                && s.joins().last().0 == JoinKind::Left
                && join.makes(s.joins().last().1)
                && s.wheres() == self.wheres() && s.ordering() == self.ordering()
                && s.grouping() == self.grouping() && s.limit_view() == self.limit_view()
                && s.offset_view() == self.offset_view(),
    {
        let j = join.try_into_join()?;
        let mut s = self;
        s.join.push((JoinKind::Left, j));
        assert(s.join@.drop_last() =~= self.join@);
        Ok(s)
    }

    /// Adds a predicate fragment built from `where_`, linked by its own tag
    /// (`and` unless it says otherwise); fails, leaving nothing built, where
    /// building the fragment does.
    pub fn where_<T: TryIntoWhere>(self, where_: T) -> (r: QResult<Self>)
        ensures
            r is Ok <==> where_.accepted(),
            r matches Err(QueryError::IncorrectPlaceholderCount(t, n)) ==> t@ == where_.template()
                && n == where_.expected(),
            r matches Ok(s) ==> s.source() == self.source() && s.columns() == self.columns()
                && s.joins() == self.joins() && s.wheres().len() == self.wheres().len() + 1
                && s.wheres().drop_last() == self.wheres() && where_.makes(s.wheres().last())
                && s.ordering() == self.ordering() && s.grouping() == self.grouping()
                && s.limit_view() == self.limit_view() && s.offset_view() == self.offset_view(),
    {
        let w = where_.try_into_where()?;
        let mut s = self;
        s.where_.push(w);
        assert(s.where_@.drop_last() =~= self.where_@);
        Ok(s)
    }

    /// Adds the predicate `col = ANY(?)`, binding `values` as one array.
    pub fn where_in(self, col: &str, values: Vec<i64>) -> (r: Self)
        ensures
            r.source() == self.source(),
            r.columns() == self.columns(),
            r.joins() == self.joins(),
            r.wheres().len() == self.wheres().len() + 1,
            r.wheres().drop_last() == self.wheres(),
            r.wheres().last().expr_view() == col@ + " = ANY(?)"@,
            r.wheres().last().values_view() == seq![BindValue::VecI64(values@)],
            r.wheres().last().kind_view() == BoolKind::And,
            r.ordering() == self.ordering(),
            r.grouping() == self.grouping(),
            r.limit_view() == self.limit_view(),
            r.offset_view() == self.offset_view(),
    {
        let mut expr = String::from_str(col);
        expr.append(" = ANY(?)");
        let ghost vs = values@;
        let vals = vec![SQLValue::VecI64(values)];
        assert(bind_views(vals@) =~= seq![BindValue::VecI64(vs)]);
        let mut s = self;
        s.where_.push(Where::Simple { expr, values: vals, kind: BoolKind::And });
        assert(s.where_@.drop_last() =~= self.where_@);
        s
    }

    /// Adds a predicate fragment built from `where_`, linked by `or` to the
    /// one before it; fails, leaving nothing built, where building the
    /// fragment does.
    pub fn or_where<T: TryIntoWhere>(self, where_: T) -> (r: QResult<Self>)
        ensures
            r is Ok <==> where_.accepted(),
            r matches Err(QueryError::IncorrectPlaceholderCount(t, n)) ==> t@ == where_.template()
                && n == where_.expected(),
            r matches Ok(s) ==> s.source() == self.source() && s.columns() == self.columns()
                && s.joins() == self.joins() && s.wheres().len() == self.wheres().len() + 1
                && s.wheres().drop_last() == self.wheres() && s.ordering() == self.ordering()
                && s.grouping() == self.grouping() && s.limit_view() == self.limit_view()
                && s.offset_view() == self.offset_view() && s.wheres().last().kind_view() == BoolKind::Or
                && exists|w: Where|
                where_.makes(w) && s.wheres().last().expr_view() == w.expr_view()
                    && s.wheres().last().values_view() == w.values_view(),
    {
        let mut w = where_.try_into_where()?;
        let ghost w0 = w;
        w.kind(BoolKind::Or);
        let mut s = self;
        s.where_.push(w);
        assert(s.where_@.drop_last() =~= self.where_@);
        assert(s.where_@.last().expr_view() == w0.expr_view());
        Ok(s)
    }

    /// Appends the columns that `column` gives, in order.
    pub fn select<C: IntoSelect>(self, column: C) -> (r: Self)
        ensures
            r.columns() == self.columns() + column.columns(),
            r.source() == self.source(),
            r.joins() == self.joins(),
            r.wheres() == self.wheres(),
            r.ordering() == self.ordering(),
            r.grouping() == self.grouping(),
            r.limit_view() == self.limit_view(),
            r.offset_view() == self.offset_view(),
    {
        let mut s = self;
        let mut cols = column.into_select();
        let ghost before = s.select@;
        let ghost added = cols@;
        s.select.append(&mut cols);
        assert(views(s.select@) =~= views(before) + views(added));
        s
    }

    /// Sets the grouping to what `group_by` gives, replacing any earlier one.
    pub fn group_by<G: IntoGroupBy>(self, group_by: G) -> (r: Self)
        ensures
            r.grouping() == Some(group_by.grouping()),
            r.source() == self.source(),
            r.columns() == self.columns(),
            r.joins() == self.joins(),
            r.wheres() == self.wheres(),
            r.ordering() == self.ordering(),
            r.limit_view() == self.limit_view(),
            r.offset_view() == self.offset_view(),
    {
        let mut s = self;
        s.group_by = Some(group_by.into_group_by());
        s
    }

    /// Sets the ordering, replacing any earlier one. The column is not
    /// sanitised: take it from an allow-list where it comes from user input.
    pub fn order_by(self, col: &str, dir: OrderDir) -> (r: Self)
        ensures
            r.ordering() == Some((col@, dir)),
            r.source() == self.source(),
            r.columns() == self.columns(),
            r.joins() == self.joins(),
            r.wheres() == self.wheres(),
            r.grouping() == self.grouping(),
            r.limit_view() == self.limit_view(),
            r.offset_view() == self.offset_view(),
    {
        let mut s = self;
        s.order_by = Some((String::from_str(col), dir));
        s
    }

    /// Sets or clears the row limit.
    pub fn limit<L: IntoOptional<u64>>(self, limit: L) -> (r: Self)
        ensures
            r.limit_view() == limit.optional(),
            r.source() == self.source(),
            r.columns() == self.columns(),
            r.joins() == self.joins(),
            r.wheres() == self.wheres(),
            r.ordering() == self.ordering(),
            r.grouping() == self.grouping(),
            r.offset_view() == self.offset_view(),
    {
        let mut s = self;
        s.limit = limit.into_optional();
        s
    }

    /// Sets or clears the row offset.
    pub fn offset<L: IntoOptional<u64>>(self, offset: L) -> (r: Self)
        ensures
            r.offset_view() == offset.optional(),
            r.source() == self.source(),
            r.columns() == self.columns(),
            r.joins() == self.joins(),
            r.wheres() == self.wheres(),
            r.ordering() == self.ordering(),
            r.grouping() == self.grouping(),
            r.limit_view() == self.limit_view(),
    {
        let mut s = self;
        s.offset = offset.into_optional();
        s
    }
}

impl Default for Select {
    fn default() -> (r: Self)
        ensures
            r.source() is None,
            r.columns().len() == 0,
            r.joins().len() == 0,
            r.wheres().len() == 0,
            r.ordering() is None,
            r.grouping() is None,
            r.limit_view() is None,
            r.offset_view() is None,
    {
        Select::new()
    }
}

/// Every literal text of `s` and of the statements nested in it is free of
/// placeholders, every predicate is balanced, and every template has one
/// placeholder for each statement that fills it.
pub open spec fn well_formed(s: Select) -> bool
    decreases s, 0nat,
{
    let source = match s.source() {
        Some(t) => table_well_formed(t),
        None => true,
    };
    &&& forall|i: int| 0 <= i < s.columns().len() ==> placeholders(#[trigger] s.columns()[i]) == 0
    &&& source
    &&& joins_well_formed(s.joins(), s.joins().len())
    &&& forall|i: int| 0 <= i < s.wheres().len() ==> (#[trigger] s.wheres()[i]).balanced()
    &&& (s.grouping() matches Some(g) ==> placeholders(g) == 0)
    &&& (s.ordering() matches Some((c, _)) ==> placeholders(c) == 0)
}

/// The source is well formed.
pub open spec fn table_well_formed(t: TableType) -> bool
    decreases t, 0nat,
{
    match t {
        TableType::Simple(n) => placeholders(n@) == 0,
        TableType::Complex(tpl, subs) => placeholders(tpl@) == subs@.len() && subs_well_formed(
            subs@,
            subs@.len(),
        ),
    }
}

/// The first `n` statements of `v` are well formed.
pub open spec fn subs_well_formed(v: Seq<Select>, n: nat) -> bool
    decreases v, n,
{
    if n == 0 || n > v.len() {
        true
    } else {
        subs_well_formed(v, (n - 1) as nat) && well_formed(v[n - 1])
    }
}

/// The first `n` joins are well formed.
pub open spec fn joins_well_formed(js: Seq<(JoinKind, Join)>, n: nat) -> bool
    decreases js, n,
{
    if n == 0 || n > js.len() {
        true
    } else {
        let clause = match js[n - 1].1 {
            Join::Simple(c) => placeholders(c@) == 0,
            Join::SubQuery(tpl, sub) => placeholders(tpl@) == 1 && well_formed(*sub),
        };
        joins_well_formed(js, (n - 1) as nat) && clause
    }
}

/// The fixed words of a rendered statement hold no placeholder, and each
/// pagination clause holds one.
proof fn lemma_fixed_words()
    ensures
        placeholders("select "@) == 0,
        placeholders(" from "@) == 0,
        placeholders(" where "@) == 0,
        placeholders(" group by "@) == 0,
        placeholders(" order by "@) == 0,
        placeholders(" join "@) == 0,
        placeholders(" "@) == 0,
        placeholders(seq![' ']) == 0,
        placeholders(seq!['*']) == 0,
        placeholders(comma()) == 0,
        placeholders(" limit ?"@) == 1,
        placeholders(" offset ?"@) == 1,
        forall|k: BoolKind| placeholders(#[trigger] kind_word(k)) == 0,
        forall|k: JoinKind| placeholders(#[trigger] join_word(k)) == 0,
        forall|d: OrderDir| placeholders(#[trigger] dir_word(d)) == 0,
{
    reveal_strlit("select ");
    reveal_strlit(" from ");
    reveal_strlit(" where ");
    reveal_strlit(" group by ");
    reveal_strlit(" order by ");
    reveal_strlit(" join ");
    reveal_strlit(" ");
    reveal_strlit(" limit ?");
    reveal_strlit(" offset ?");
    lemma_no_marker("select "@);
    lemma_no_marker(" from "@);
    lemma_no_marker(" where "@);
    lemma_no_marker(" group by "@);
    lemma_no_marker(" order by "@);
    lemma_no_marker(" join "@);
    lemma_no_marker(" "@);
    lemma_no_marker(seq![' ']);
    lemma_no_marker(seq!['*']);
    lemma_no_marker(comma());
    lemma_no_marker(seq!['a', 'n', 'd']);
    lemma_no_marker(seq!['o', 'r']);
    lemma_no_marker(seq!['l', 'e', 'f', 't']);
    lemma_no_marker(seq!['a', 's', 'c']);
    lemma_no_marker(seq!['d', 'e', 's', 'c']);
    let l = " limit "@;
    reveal_strlit(" limit ");
    lemma_no_marker(l);
    assert(" limit ?"@ =~= l + seq!['?']);
    lemma_count_concat(l, seq!['?'], marker());
    let o = " offset "@;
    reveal_strlit(" offset ");
    lemma_no_marker(o);
    assert(" offset ?"@ =~= o + seq!['?']);
    lemma_count_concat(o, seq!['?'], marker());
    reveal_with_fuel(crate::text::count_char, 2);
    assert(seq!['?'].drop_last() =~= Seq::<char>::empty());
    assert forall|k: BoolKind| placeholders(#[trigger] kind_word(k)) == 0 by {
        match k {
            BoolKind::And => {},
            BoolKind::Or => {},
        }
    }
    assert forall|k: JoinKind| placeholders(#[trigger] join_word(k)) == 0 by {
        match k {
            JoinKind::Left => {},
        }
    }
    assert forall|d: OrderDir| placeholders(#[trigger] dir_word(d)) == 0 by {
        match d {
            OrderDir::Asc => {},
            OrderDir::Desc => {},
        }
    }
}

/// The first `n` nested statements are well formed one by one.
proof fn lemma_subs_well_formed(v: Seq<Select>, n: nat)
    requires
        n <= v.len(),
        subs_well_formed(v, n),
    ensures
        forall|i: int| 0 <= i < n ==> well_formed(#[trigger] v[i]),
    decreases n,
{
    if n > 0 {
        lemma_subs_well_formed(v, (n - 1) as nat);
    }
}

/// Balanced predicates: the body holds one placeholder for each value.
proof fn lemma_where_body_count(ws: Seq<Where>)
    requires
        forall|i: int| 0 <= i < ws.len() ==> (#[trigger] ws[i]).balanced(),
    ensures
        placeholders(where_body(ws)) == where_values(ws).len(),
    decreases ws.len(),
{
    lemma_fixed_words();
    if ws.len() == 0 {
        reveal_with_fuel(crate::text::count_char, 1);
    } else if ws.len() == 1 {
        assert(ws.drop_last() =~= Seq::<Where>::empty());
        assert(ws[0].balanced());
    } else {
        let prev = ws.drop_last();
        assert forall|i: int| 0 <= i < prev.len() implies (#[trigger] prev[i]).balanced() by {
            assert(prev[i] == ws[i]);
        }
        lemma_where_body_count(prev);
        assert(ws.last().balanced());
        let k = ws.last().kind_view();
        lemma_count_concat(seq![' '], kind_word(k), marker());
        lemma_count_concat(seq![' '] + kind_word(k), seq![' '], marker());
        lemma_count_concat(where_body(prev), link(k), marker());
        lemma_count_concat(where_body(prev) + link(k), ws.last().expr_view(), marker());
    }
}

/// The placeholders that the first `k` nested statements bring are their
/// values in number.
proof fn lemma_subs_count(v: Seq<Select>, n: nat, k: nat)
    requires
        n <= v.len(),
        k <= n,
        forall|i: int| 0 <= i < n ==> well_formed(#[trigger] v[i]),
    ensures
        fill_placeholders(subs_texts(v, n), k) == subs_values(v, k).len(),
    decreases v, k,
{
    if k > 0 {
        lemma_subs_count(v, n, (k - 1) as nat);
        lemma_subs(v, n);
        law_placeholders_match_values(v[k - 1]);
    }
}

/// A well-formed source holds one placeholder for each of its values.
proof fn lemma_table_count(t: TableType)
    requires
        table_well_formed(t),
    ensures
        placeholders(table_text(t)) == table_values(t).len(),
    decreases t, 0nat,
{
    match t {
        TableType::Simple(_) => {},
        TableType::Complex(tpl, subs) => {
            let n = subs@.len();
            lemma_subs(subs@, n);
            lemma_subs_well_formed(subs@, n);
            law_substitution_placeholders(tpl@, subs_texts(subs@, n));
            lemma_subs_count(subs@, n, n);
        },
    }
}

/// Well-formed joins hold one placeholder for each of their values.
proof fn lemma_joins_count(js: Seq<(JoinKind, Join)>, n: nat)
    requires
        n <= js.len(),
        joins_well_formed(js, n),
    ensures
        placeholders(joins_text(js, n)) == joins_values(js, n).len(),
    decreases js, n,
{
    lemma_fixed_words();
    if n == 0 {
        reveal_with_fuel(crate::text::count_char, 1);
    } else {
        lemma_joins_count(js, (n - 1) as nat);
        let (k, j) = js[n - 1];
        let head = joins_text(js, (n - 1) as nat) + " "@ + join_word(k) + " join "@;
        lemma_count_concat(joins_text(js, (n - 1) as nat), " "@, marker());
        lemma_count_concat(joins_text(js, (n - 1) as nat) + " "@, join_word(k), marker());
        lemma_count_concat(joins_text(js, (n - 1) as nat) + " "@ + join_word(k), " join "@, marker());
        match j {
            Join::Simple(c) => {
                lemma_count_concat(head, c@, marker());
                assert(joins_values(js, n) =~= joins_values(js, (n - 1) as nat));
            },
            Join::SubQuery(tpl, sub) => {
                assert(decreases_to!(js => js[n - 1]));
                law_placeholders_match_values(*sub);
                lemma_trimmed_placeholders(text_of(*sub));
                lemma_segments_len(tpl@);
                lemma_segments_plain(tpl@);
                let segs = segments(tpl@);
                assert(placeholders(piece(segs, 0)) == 0);
                assert(placeholders(piece(segs, 1)) == 0);
                let tail = piece(segs, 0) + trimmed(text_of(*sub)) + piece(segs, 1);
                lemma_count_concat(piece(segs, 0), trimmed(text_of(*sub)), marker());
                lemma_count_concat(piece(segs, 0) + trimmed(text_of(*sub)), piece(segs, 1), marker());
                lemma_count_concat(head, tail, marker());
            },
        }
    }
}

/// In a well-formed statement the rendered template holds exactly one
/// placeholder for each value in the bind list, nested statements and nested
/// predicate fragments counted recursively; so binding can pair them up.
pub proof fn law_placeholders_match_values(s: Select)
    requires
        well_formed(s),
    ensures
        placeholders(text_of(s)) == values_of(s).len(),
    decreases s, 0nat,
{
    lemma_fixed_words();
    let cols = s.columns();
    if cols.len() > 0 {
        lemma_joined_plain(cols, comma());
    }
    let source = match s.source() {
        Some(t) => table_text(t),
        None => Seq::empty(),
    };
    match s.source() {
        Some(t) => lemma_table_count(t),
        None => {
            reveal_with_fuel(crate::text::count_char, 1);
        },
    }
    lemma_joins_count(s.joins(), s.joins().len());
    let ws = s.wheres();
    if ws.len() > 0 {
        lemma_where_body_count(ws);
        lemma_count_concat(" where "@, where_body(ws), marker());
        lemma_count_concat(" where "@ + where_body(ws), seq![' '], marker());
    } else {
        reveal_with_fuel(crate::text::count_char, 1);
    }
    match s.grouping() {
        Some(g) => {
            lemma_count_concat(" group by "@, g, marker());
            lemma_count_concat(" group by "@ + g, seq![' '], marker());
        },
        None => {},
    }
    match s.ordering() {
        Some((c, d)) => {
            lemma_count_concat(" order by "@, c, marker());
            lemma_count_concat(" order by "@ + c, seq![' '], marker());
            lemma_count_concat(" order by "@ + c + seq![' '], dir_word(d), marker());
            lemma_count_concat(" order by "@ + c + seq![' '] + dir_word(d), seq![' '], marker());
        },
        None => {},
    }
    let a1 = "select "@ + columns_text(cols);
    let a2 = a1 + " from "@;
    let a3 = a2 + source;
    let a4 = a3 + joins_text(s.joins(), s.joins().len());
    let a5 = a4 + where_text(ws);
    let a6 = a5 + group_text(s.grouping());
    let a7 = a6 + order_text(s.ordering());
    let a8 = a7 + limit_text(s.limit_view());
    let a9 = a8 + offset_text(s.offset_view());
    lemma_count_concat("select "@, columns_text(cols), marker());
    lemma_count_concat(a1, " from "@, marker());
    lemma_count_concat(a2, source, marker());
    lemma_count_concat(a3, joins_text(s.joins(), s.joins().len()), marker());
    lemma_count_concat(a4, where_text(ws), marker());
    lemma_count_concat(a5, group_text(s.grouping()), marker());
    lemma_count_concat(a6, order_text(s.ordering()), marker());
    lemma_count_concat(a7, limit_text(s.limit_view()), marker());
    lemma_count_concat(a8, offset_text(s.offset_view()), marker());
    assert(text_of(s) == a9);
}

/// `a` renders as `b` does: the same template, the same values, and a
/// source wherever `b` has one.
pub open spec fn renders_alike(a: Select, b: Select) -> bool {
    &&& text_of(a) == text_of(b)
    &&& values_of(a) == values_of(b)
    &&& sourced(a) == sourced(b)
}

/// Two sources with the same text and nested statements that render alike.
pub open spec fn tables_alike(a: TableType, b: TableType) -> bool {
    match (a, b) {
        (TableType::Simple(x), TableType::Simple(y)) => x@ == y@,
        (TableType::Complex(t1, s1), TableType::Complex(t2, s2)) => {
            &&& t1@ == t2@
            &&& s1@.len() == s2@.len()
            &&& forall|i: int| 0 <= i < s1@.len() ==> renders_alike(#[trigger] s1@[i], s2@[i])
        },
        _ => false,
    }
}

/// Two join clauses with the same text and nested statements that render
/// alike.
pub open spec fn joins_alike(a: Join, b: Join) -> bool {
    match (a, b) {
        (Join::Simple(x), Join::Simple(y)) => x@ == y@,
        (Join::SubQuery(t1, s1), Join::SubQuery(t2, s2)) => t1@ == t2@ && renders_alike(*s1, *s2),
        _ => false,
    }
}

proof fn lemma_subs_alike(v1: Seq<Select>, v2: Seq<Select>, n: nat)
    requires
        n <= v1.len(),
        v1.len() == v2.len(),
        forall|i: int| 0 <= i < v1.len() ==> renders_alike(#[trigger] v1[i], v2[i]),
    ensures
        subs_texts(v1, n) == subs_texts(v2, n),
        subs_values(v1, n) == subs_values(v2, n),
        subs_sourced(v1, n) == subs_sourced(v2, n),
    decreases n,
{
    if n > 0 {
        lemma_subs_alike(v1, v2, (n - 1) as nat);
        assert(renders_alike(v1[n - 1], v2[n - 1]));
    }
}

proof fn lemma_tables_alike(a: TableType, b: TableType)
    requires
        tables_alike(a, b),
    ensures
        table_text(a) == table_text(b),
        table_values(a) == table_values(b),
        table_sourced(a) == table_sourced(b),
{
    match (a, b) {
        (TableType::Complex(_, s1), TableType::Complex(_, s2)) => {
            lemma_subs_alike(s1@, s2@, s1@.len());
        },
        _ => {},
    }
}

proof fn lemma_joins_alike(j1: Seq<(JoinKind, Join)>, j2: Seq<(JoinKind, Join)>, n: nat)
    requires
        n <= j1.len(),
        j1.len() == j2.len(),
        forall|i: int| 0 <= i < j1.len() ==> (#[trigger] j1[i]).0 == j2[i].0 && joins_alike(j1[i].1, j2[i].1),
    ensures
        joins_text(j1, n) == joins_text(j2, n),
        joins_values(j1, n) == joins_values(j2, n),
        joins_sourced(j1, n) == joins_sourced(j2, n),
    decreases n,
{
    if n > 0 {
        lemma_joins_alike(j1, j2, (n - 1) as nat);
        assert(j1[n - 1].0 == j2[n - 1].0 && joins_alike(j1[n - 1].1, j2[n - 1].1));
    }
}

proof fn lemma_wheres_alike(w1: Seq<Where>, w2: Seq<Where>)
    requires
        w1.len() == w2.len(),
        forall|i: int| 0 <= i < w1.len() ==> (#[trigger] w1[i]).expr_view() == w2[i].expr_view()
            && w1[i].values_view() == w2[i].values_view() && w1[i].kind_view() == w2[i].kind_view(),
    ensures
        where_body(w1) == where_body(w2),
        where_values(w1) == where_values(w2),
    decreases w1.len(),
{
    if w1.len() > 0 {
        let (a, b) = (w1.drop_last(), w2.drop_last());
        assert forall|i: int| 0 <= i < a.len() implies (#[trigger] a[i]).expr_view() == b[i].expr_view()
            && a[i].values_view() == b[i].values_view() && a[i].kind_view() == b[i].kind_view() by {
            assert(a[i] == w1[i] && b[i] == w2[i]);
        }
        lemma_wheres_alike(a, b);
        assert(w1.last() == w1[w1.len() - 1]);
        assert(w2.last() == w2[w2.len() - 1]);
    }
}

/// A copy of a source.
fn copy_table(t: &TableType) -> (r: TableType)
    ensures
        tables_alike(r, *t),
    decreases t,
{
    match t {
        TableType::Simple(n) => TableType::Simple(n.clone()),
        TableType::Complex(tpl, subs) => {
            let mut out: Vec<Select> = Vec::new();
            let mut i: usize = 0;
            while i < subs.len()
                invariant
                    *t == TableType::Complex(*tpl, *subs),
                    i <= subs.len(),
                    out@.len() == i,
                    forall|j: int| 0 <= j < i ==> renders_alike(#[trigger] out@[j], subs@[j]),
                decreases subs.len() - i,
            {
                proof {
                    vstd::std_specs::vec::axiom_vec_index_decreases(*subs, i as int);
                    assert(decreases_to!(*t => (*t)->Complex_1));
                }
                let c = subs[i].copy_of();
                out.push(c);
                i = i + 1;
            }
            TableType::Complex(tpl.clone(), out)
        },
    }
}

/// A copy of a join clause.
fn copy_join(j: &Join) -> (r: Join)
    ensures
        joins_alike(r, *j),
    decreases j,
{
    match j {
        Join::Simple(c) => Join::Simple(c.clone()),
        Join::SubQuery(tpl, sub) => {
            let c = sub.copy_of();
            Join::SubQuery(tpl.clone(), Box::new(c))
        },
    }
}

impl Select {
    /// A copy that renders as `self` does.
    fn copy_of(&self) -> (r: Select)
        ensures
            renders_alike(r, *self),
        decreases self,
    {
        let table = match &self.table {
            Some(t) => Some(copy_table(t)),
            None => None,
        };
        let mut select: Vec<String> = Vec::new();
        let mut i: usize = 0;
        while i < self.select.len()
            invariant
                i <= self.select.len(),
                views(select@) == views(self.select@.subrange(0, i as int)),
            decreases self.select.len() - i,
        {
            let ghost before = select@;
            select.push(self.select[i].clone());
            proof {
                assert(self.select@.subrange(0, i as int + 1) =~= self.select@.subrange(0, i as int).push(
                    self.select@[i as int],
                ));
                assert(views(select@) =~= views(before).push(self.select@[i as int]@));
            }
            i = i + 1;
        }
        assert(self.select@.subrange(0, i as int) =~= self.select@);
        let mut join: Vec<(JoinKind, Join)> = Vec::new();
        let mut i: usize = 0;
        while i < self.join.len()
            invariant
                i <= self.join.len(),
                join@.len() == i,
                forall|k: int| 0 <= k < i ==> (#[trigger] join@[k]).0 == self.join@[k].0
                    && joins_alike(join@[k].1, self.join@[k].1),
            decreases self.join.len() - i,
        {
            proof {
                vstd::std_specs::vec::axiom_vec_index_decreases(self.join, i as int);
                let e = self.join@[i as int];
                assert(decreases_to!(e => e.1));
            }
            let c = copy_join(&self.join[i].1);
            join.push((self.join[i].0, c));
            i = i + 1;
        }
        let mut where_: Vec<Where> = Vec::new();
        let mut i: usize = 0;
        while i < self.where_.len()
            invariant
                i <= self.where_.len(),
                where_@.len() == i,
                forall|k: int| 0 <= k < i ==> (#[trigger] where_@[k]).expr_view() == self.where_@[k].expr_view()
                    && where_@[k].values_view() == self.where_@[k].values_view()
                    && where_@[k].kind_view() == self.where_@[k].kind_view(),
            decreases self.where_.len() - i,
        {
            where_.push(self.where_[i].clone());
            i = i + 1;
        }
        let order_by = match &self.order_by {
            Some((c, d)) => Some((c.clone(), *d)),
            None => None,
        };
        let group_by = match &self.group_by {
            Some(g) => Some(g.clone()),
            None => None,
        };
        let r = Select {
            table,
            select,
            join,
            where_,
            order_by,
            group_by,
            limit: self.limit,
            offset: self.offset,
        };
        proof {
            if r.table is Some {
                lemma_tables_alike(r.table->0, self.table->0);
            }
            lemma_joins_alike(r.join@, self.join@, r.join@.len());
            lemma_wheres_alike(r.where_@, self.where_@);
            assert(r.columns() == self.columns());
            assert(r.grouping() == self.grouping());
            assert(r.ordering() == self.ordering());
        }
        r
    }
}

impl Clone for Select {
    fn clone(&self) -> (r: Self)
        ensures
            renders_alike(r, *self),
    {
        self.copy_of()
    }
}

impl Clone for TableType {
    fn clone(&self) -> (r: Self)
        ensures
            tables_alike(r, *self),
    {
        copy_table(self)
    }
}

impl Clone for Join {
    fn clone(&self) -> (r: Self)
        ensures
            joins_alike(r, *self),
    {
        copy_join(self)
    }
}

} // verus!

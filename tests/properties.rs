use composable_query_builder::{
    placeholder_count, BoolKind, Join, JoinKind, OrderDir, QueryError, SQLValue, Select, TableType,
    Where, WhereBuilder,
};

fn is_i32(v: &SQLValue, n: i32) -> bool {
    matches!(v, SQLValue::I32(x) if *x == n)
}

fn is_u64(v: &SQLValue, n: u64) -> bool {
    matches!(v, SQLValue::U64(x) if *x == n)
}

#[test]
fn columns_in_insertion_order() {
    let (q, v) = Select::from("t").parts();
    assert_eq!(q, "select * from t");
    assert!(v.is_empty());
    let (q, _) = Select::from("t").select(vec!["a"]).parts();
    assert_eq!(q, "select a from t");
    let (q, _) = Select::from("t").select(("b", "a")).parts();
    assert_eq!(q, "select b, a from t");
    let (q, _) = Select::from("t").select(("c", "b", "a")).parts();
    assert_eq!(q, "select c, b, a from t");
    let (q, _) = Select::from("t").select(("d", "c", "b", "a")).parts();
    assert_eq!(q, "select d, c, b, a from t");
    let (q, _) = Select::from("t").select(String::from("x")).select(vec![String::from("y")]).parts();
    assert_eq!(q, "select x, y from t");
}

#[test]
fn substitution_keeps_order_and_counts_nested_values() {
    let inner = Where::from_two("x > ? and x < ?", 5, 6).unwrap();
    let (q, v) = Select::from("t")
        .where_(("a = ? or (?) or c = ?", 1, inner, 3))
        .unwrap()
        .parts();
    assert_eq!(q, "select * from t where a = ? or (x > ? and x < ?) or c = ? ");
    assert_eq!(v.len(), 4);
    assert!(is_i32(&v[0], 1));
    assert!(is_i32(&v[1], 5));
    assert!(is_i32(&v[2], 6));
    assert!(is_i32(&v[3], 3));
}

#[test]
fn two_argument_predicate_round_trip() {
    let (q, v) = Select::from("t").where_(("a = ? and b = ?", 1, 2)).unwrap().parts();
    assert_eq!(q, "select * from t where a = ? and b = ? ");
    assert_eq!(v.len(), 2);
    assert!(is_i32(&v[0], 1));
    assert!(is_i32(&v[1], 2));
    let b = Select::from("t").where_(("a = ? and b = ?", 1, 2)).unwrap().into_builder();
    assert_eq!(b.sql(), "select * from t where a = $1 and b = $2 ");
}

#[test]
fn connective_comes_from_later_fragment() {
    let (q, _) = Select::from("t")
        .or_where("x")
        .unwrap()
        .or_where("y")
        .unwrap()
        .or_where("z")
        .unwrap()
        .parts();
    assert_eq!(q, "select * from t where x or y or z ");
    let (q, _) = Select::from("t")
        .or_where("x")
        .unwrap()
        .where_("y")
        .unwrap()
        .or_where("z")
        .unwrap()
        .parts();
    assert_eq!(q, "select * from t where x and y or z ");
    let (q, _) = Select::from("t").where_("x").unwrap().or_where("y").unwrap().parts();
    assert_eq!(q, "select * from t where x or y ");
}

#[test]
fn nested_table_source_keeps_sub_values() {
    let sub = Select::from("users").select("id").where_(("id = ?", 7)).unwrap();
    let (q, v) = Select::from(("(?) as a", sub)).parts();
    assert_eq!(q, "select * from (select id from users where id = ? ) as a");
    assert_eq!(v.len(), 1);
    assert!(is_i32(&v[0], 7));
    let sub = Select::from("users").select("id").where_(("id = ?", 7)).unwrap();
    let b = Select::from(("(?) as a", sub)).into_builder();
    assert_eq!(b.sql(), "select * from (select id from users where id = $1 ) as a");
}

#[test]
fn multi_statement_source_fills_slots_in_order() {
    let a = Select::from("a").where_(("x = ?", 1)).unwrap();
    let b = Select::from("b").where_(("y = ?", 2)).unwrap();
    let t = TableType::Complex(String::from("(?) union (?)"), vec![a, b]);
    let (q, v) = Select::from(t).parts();
    assert_eq!(q, "select * from (select * from a where x = ? ) union (select * from b where y = ? )");
    assert!(is_i32(&v[0], 1));
    assert!(is_i32(&v[1], 2));
}

#[test]
fn rendering_twice_is_identical() {
    let build = || {
        Select::from("t")
            .select(("a", "b"))
            .where_(("a = ?", 1))
            .unwrap()
            .order_by("a", OrderDir::Asc)
            .limit(5)
    };
    let (q1, v1) = build().parts();
    let (q2, v2) = build().parts();
    assert_eq!(q1, q2);
    assert_eq!(format!("{:?}", v1), format!("{:?}", v2));
    assert_eq!(build().into_builder().sql(), build().into_builder().sql());
}

#[test]
fn placeholder_mismatch_is_an_error() {
    let r = Where::from_one("a = ?", 1);
    assert!(r.is_ok());
    match Select::from("t").where_(("a = ? and b = ?", 1)) {
        Err(QueryError::IncorrectPlaceholderCount(t, n)) => {
            assert_eq!(t, "a = ? and b = ?");
            assert_eq!(n, 1);
        }
        Ok(_) => panic!("accepted a template with two placeholders and one argument"),
    }
    match Where::from_expr("a = ?") {
        Err(QueryError::IncorrectPlaceholderCount(t, n)) => {
            assert_eq!(t, "a = ?");
            assert_eq!(n, 0);
        }
        Ok(_) => panic!("accepted a placeholder without an argument"),
    }
    assert!(Where::from_three("a", 1, 2, 3).is_err());
    assert!(WhereBuilder::new().where_(("a = ? or b = ?", 1)).is_err());
}

#[test]
fn join_template_needs_one_placeholder() {
    let sub = Select::from("u");
    match Join::sub_query("no slot", sub) {
        Err(QueryError::IncorrectPlaceholderCount(t, n)) => {
            assert_eq!(t, "no slot");
            assert_eq!(n, 1);
        }
        Ok(_) => panic!("accepted a join template without a placeholder"),
    }
    let sub = Select::from("u");
    assert!(Select::from("t").left_join(("(?) x (?)", sub)).is_err());
}

#[test]
fn limit_and_offset() {
    let (q, v) = Select::from("t").limit(10).parts();
    assert_eq!(q, "select * from t limit ?");
    assert_eq!(v.len(), 1);
    assert!(is_u64(&v[0], 10));
    let (q, v) = Select::from("t").limit(None).parts();
    assert_eq!(q, "select * from t");
    assert!(v.is_empty());
    let (q, v) = Select::from("t").limit(3).offset(20).parts();
    assert_eq!(q, "select * from t limit ? offset ?");
    assert!(is_u64(&v[0], 3));
    assert!(is_u64(&v[1], 20));
    let b = Select::from("t").limit(3).offset(20).into_builder();
    assert_eq!(b.sql(), "select * from t limit $1 offset $2");
    let (q, _) = Select::from("t").limit(3).limit(None).parts();
    assert_eq!(q, "select * from t");
}

#[test]
fn clause_order_and_grouping() {
    let (q, _) = Select::from("t")
        .select(("a", "count(*)"))
        .where_("a > 0")
        .unwrap()
        .group_by(vec!["a", "b"])
        .order_by("a", OrderDir::Desc)
        .parts();
    assert_eq!(q, "select a, count(*) from t where a > 0  group by a, b  order by a desc ");
    let (q, _) = Select::from("t").group_by(("a", "b", "c")).parts();
    assert_eq!(q, "select * from t group by a, b, c ");
    let (q, _) = Select::from("t").group_by("a").parts();
    assert_eq!(q, "select * from t group by a ");
}

#[test]
fn many_parameters_are_numbered() {
    let mut s = Select::from("t");
    for i in 0..12 {
        s = s.where_(("c = ?", i)).unwrap();
    }
    let b = s.into_builder();
    assert!(b.sql().ends_with("c = $10 and c = $11 and c = $12 "));
}

#[test]
fn values_of_every_kind_bind() {
    let (q, v) = Select::from("t")
        .where_(("a = ? and b = ? and c = ?", 1i16, 2i64, true))
        .unwrap()
        .where_(("d = ? and e = ?", String::from("x"), vec![1i64, 2]))
        .unwrap()
        .where_(("f = ? and g = ?", SQLValue::Null, None::<SQLValue>))
        .unwrap()
        .where_(("h = ?", 9u64))
        .unwrap()
        .parts();
    assert_eq!(v.len(), 8);
    assert!(matches!(v[0], SQLValue::I16(1)));
    assert!(matches!(v[1], SQLValue::I64(2)));
    assert!(matches!(v[2], SQLValue::Bool(true)));
    assert!(matches!(&v[3], SQLValue::String(s) if s == "x"));
    assert!(matches!(&v[4], SQLValue::VecI64(a) if a == &vec![1, 2]));
    assert!(matches!(v[5], SQLValue::Null));
    assert!(matches!(v[6], SQLValue::Null));
    assert!(matches!(v[7], SQLValue::U64(9)));
    let b = Select::from("t")
        .where_(("a = ? and b = ? and c = ?", 1i16, 2i64, true))
        .unwrap()
        .where_(("d = ? and e = ?", String::from("x"), vec![1i64, 2]))
        .unwrap()
        .where_(("f = ?", SQLValue::Null))
        .unwrap()
        .into_builder();
    assert!(q.starts_with("select * from t where a = ?"));
    assert_eq!(
        b.sql(),
        "select * from t where a = $1 and b = $2 and c = $3 and d = $4 and e = $5 and f = $6 "
    );
}

#[test]
fn fragment_kind_and_builder_kind() {
    let mut w = Where::from_expr("x").unwrap();
    w.kind(BoolKind::Or);
    match &w {
        Where::Simple { expr, values, kind } => {
            assert_eq!(expr, "x");
            assert!(values.is_empty());
            assert_eq!(*kind, BoolKind::Or);
        }
    }
    let built = WhereBuilder::new().kind(BoolKind::Or).where_("y").unwrap().build();
    match &built {
        Where::Simple { kind, .. } => assert_eq!(*kind, BoolKind::Or),
    }
    let (q, _) = Select::from("t").where_("a").unwrap().where_(built).unwrap().parts();
    assert_eq!(q, "select * from t where a or y ");
}

#[test]
fn keywords() {
    assert_eq!(BoolKind::And.as_str(), "and");
    assert_eq!(BoolKind::Or.as_str(), "or");
    assert_eq!(OrderDir::Asc.as_str(), "asc");
    assert_eq!(OrderDir::Desc.as_str(), "desc");
    assert_eq!(JoinKind::Left.as_str(), "left");
}

#[test]
fn placeholder_count_checks_exactly() {
    assert!(placeholder_count("a = ? and b = ?", 2).is_ok());
    assert!(placeholder_count("", 0).is_ok());
    match placeholder_count("a = ?", 2) {
        Err(QueryError::IncorrectPlaceholderCount(t, n)) => {
            assert_eq!(t, "a = ?");
            assert_eq!(n, 2);
        }
        Ok(_) => panic!("miscounted"),
    }
}

#[test]
fn join_trims_sub_statement() {
    let sub = Select::from("p").where_(("x = ?", 1)).unwrap();
    let (q, v) = Select::from("t").left_join(("(?) s", sub)).unwrap().parts();
    assert_eq!(q, "select * from t left join (select * from p where x = ?) s");
    assert_eq!(v.len(), 1);
}

#[test]
fn checked_builder_refuses_mismatched_counts() {
    let b = Select::from("t").where_(("a = ?", 1)).unwrap().try_into_builder();
    assert_eq!(b.map(|b| b.sql().to_string()), Some(String::from("select * from t where a = $1 ")));
    let b = Select::from("t").select("odd?").try_into_builder();
    assert!(b.is_none());
}

#[test]
fn values_report_whether_they_fit() {
    assert!(SQLValue::text("abc").fits());
    assert!(SQLValue::Json(serde_json::Value::Bool(true)).fits());
    assert!(SQLValue::VecI64(vec![1, 2, 3]).fits());
    assert!(SQLValue::U64(u64::MAX).fits());
}

#[test]
fn more_argument_kinds() {
    let d = chrono::NaiveDate::from_ymd_opt(2024, 1, 2).unwrap();
    let name = String::from("n");
    let (q, v) = Select::from(&name)
        .where_(("a = ? and b = ? and c = ?", d, Some(5), None::<i32>))
        .unwrap()
        .where_(("j = ? and k = ?", serde_json::Value::Null, ()))
        .unwrap()
        .parts();
    assert_eq!(q, "select * from n where a = ? and b = ? and c = ? and j = ? and k = ? ");
    assert!(matches!(v[0], SQLValue::Date(x) if x == d));
    assert!(matches!(v[1], SQLValue::I32(5)));
    assert!(matches!(v[2], SQLValue::Null));
    assert!(matches!(v[3], SQLValue::Json(serde_json::Value::Null)));
    assert!(matches!(v[4], SQLValue::Null));
}

#[test]
fn more_column_shapes() {
    let cols: &[&str] = &["a", "b"];
    let (q, _) = Select::from("t").select(cols).group_by(cols).parts();
    assert_eq!(q, "select a, b from t group by a, b ");
    let (q, _) = Select::from("t")
        .select((String::from("a"), String::from("b"), String::from("c")))
        .parts();
    assert_eq!(q, "select a, b, c from t");
}

#[test]
fn copies_render_alike() {
    let sub = Select::from("u").where_(("id = ?", 4)).unwrap();
    let s = Select::from(("(?) as x", sub))
        .left_join("y on x.id = y.id")
        .unwrap()
        .where_(("n = ?", String::from("k")))
        .unwrap()
        .order_by("n", OrderDir::Desc)
        .offset(3);
    let c = s.clone();
    let (q1, v1) = s.parts();
    let (q2, v2) = c.parts();
    assert_eq!(q1, q2);
    assert_eq!(format!("{:?}", v1), format!("{:?}", v2));
    let t = TableType::Simple(String::from("z"));
    let (q3, _) = Select::from(t.clone()).parts();
    assert_eq!(q3, "select * from z");
    let j = Join::literal("w on true");
    let (q4, _) = Select::from("a").left_join(j.clone()).unwrap().parts();
    assert_eq!(q4, "select * from a left join w on true");
}

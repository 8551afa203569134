use composable_query_builder::{OrderDir, QResult, Select, TryIntoWhere, Where, WhereBuilder};

#[test]
fn basic_select_star() {
    let q = Select::from("users").into_builder();
    let sql = q.sql();
    assert_eq!("select * from users", sql);
}

#[test]
fn basic_select_named() {
    let q = Select::from("users").select("id").into_builder();
    let sql = q.sql();
    assert_eq!("select id from users", sql);

    let q = Select::from("users")
        .select("id")
        .select("name")
        .into_builder();
    let sql = q.sql();
    assert_eq!("select id, name from users", sql);

    let q = Select::from("users")
        .select(vec!["id", "name"])
        .into_builder();
    let sql = q.sql();
    assert_eq!("select id, name from users", sql);

    let q = Select::from("users").select(("id", "name")).into_builder();
    let sql = q.sql();
    assert_eq!("select id, name from users", sql);

    let q = Select::from("users")
        .select(("id", "name", "email"))
        .into_builder();
    let sql = q.sql();
    assert_eq!("select id, name, email from users", sql);
}

#[test]
fn basic_where() -> QResult<()> {
    let q = Select::from("users")
        .where_(("orders > ?", 1))?
        .into_builder();
    let query = q.sql();

    assert_eq!("select * from users where orders > $1 ", query);

    let q = Select::from("users")
        .where_(("orders > ?", 1))?
        .where_(("orders < ?", 10))?
        .into_builder();
    let query = q.sql();

    assert_eq!(
        "select * from users where orders > $1 and orders < $2 ",
        query
    );

    let q = Select::from("users")
        .where_(("orders > ? and orders < ?", 1, 10))?
        .into_builder();
    let query = q.sql();

    assert_eq!(
        "select * from users where orders > $1 and orders < $2 ",
        query
    );

    Ok(())
}

#[test]
fn basic_where_in() {
    let q = Select::from("users")
        .where_in("id", vec![1, 2, 3])
        .into_builder();
    let sql = q.sql();
    assert_eq!("select * from users where id = ANY($1) ", sql);
}

#[test]
fn or_where_works() -> QResult<()> {
    let q = Select::from("users")
        .or_where(("status_id = ?", 1))?
        .or_where(("status_id = ?", 2))?
        .or_where(("status_id = ?", 3))?
        .into_builder();
    let query = q.sql();

    assert_eq!(
        "select * from users where status_id = $1 or status_id = $2 or status_id = $3 ",
        query
    );
    Ok(())
}

#[test]
fn order_by_works() {
    let q = Select::from("users")
        .order_by("email", OrderDir::Desc)
        .into_builder();
    let query = q.sql();

    assert_eq!("select * from users order by email desc ", query);

    let q = Select::from("users")
        .order_by("email", OrderDir::Asc)
        .into_builder();
    let query = q.sql();

    assert_eq!("select * from users order by email asc ", query);
}

#[test]
fn limit() {
    let q = Select::from("users").limit(10).into_builder();
    let query = q.sql();

    assert_eq!("select * from users limit $1", query);

    let q = Select::from("users").limit(Some(10)).into_builder();
    let query = q.sql();

    assert_eq!("select * from users limit $1", query);
}

#[test]
fn offset() {
    let q = Select::from("users").offset(10).into_builder();
    let query = q.sql();

    assert_eq!("select * from users offset $1", query);

    let q = Select::from("users").offset(Some(10)).into_builder();
    let query = q.sql();

    assert_eq!("select * from users offset $1", query);
}

#[test]
fn simple_join() -> QResult<()> {
    let q = Select::from("users")
        .left_join("posts on users.id = posts.user_id")?
        .into_builder();
    let query = q.sql();

    assert_eq!(
        "select * from users left join posts on users.id = posts.user_id",
        query
    );
    Ok(())
}

#[test]
fn nested_join() -> QResult<()> {
    let sub = Select::from("posts")
        .select(("id", "user_id"))
        .where_(("posts.id = ?", 1))?;

    let q = Select::from("users")
        .left_join(("(?) as sub on users.id = sub.user_id", sub))?
        .into_builder();
    let query = q.sql();

    assert_eq!(
        "select * from users left join (select id, user_id from posts where posts.id = $1) as sub on users.id = sub.user_id",
        query
    );
    Ok(())
}

#[test]
fn nested_where() -> QResult<()> {
    let w: Where = ("(orders > ? and orders < ?)", 1, 10).try_into_where()?;
    let q = Select::from("users")
        .where_(("id = ? or ?", 1, w))?
        .into_builder();
    let query = q.sql();

    assert_eq!(
        "select * from users where id = $1 or (orders > $2 and orders < $3) ",
        query
    );
    Ok(())
}

#[test]
fn where_builder() -> QResult<()> {
    let w = WhereBuilder::new()
        .where_(("name ilike %?%", "test"))?
        .where_(("email ilike %?%", "test"))?
        .where_(("business ilike %?%", "test"))?
        .build();

    let q = Select::from("users").where_(("(?)", w))?.into_builder();
    let query = q.sql();

    assert_eq!(
        "select * from users where (name ilike %$1% and email ilike %$2% and business ilike %$3%) ",
        query
    );
    Ok(())
}

#[test]
fn union() -> QResult<()> {
    let a = Select::from("users").select("id").where_(("id = ?", 1))?;
    let b = Select::from("users").select("id").where_(("id = ?", 2))?;
    let u = Select::from(("(?) as a", a))
        .left_join(("(?) as b on a.id = b.id", b))?
        .into_builder();
    println!("{}", u.sql());

    let exp = "select * from (select id from users where id = $1 ) as a left join (select id from users where id = $2) as b on a.id = b.id";
    assert_eq!(u.sql(), exp);
    Ok(())
}

#[test]
fn multiple_string() -> QResult<()> {
    let w = WhereBuilder::new()
        .or_where("id = 1")?
        .or_where("id = 2")?
        .or_where("id = 3")?
        .build();

    let q = Select::from("users").where_(("?", w))?.into_builder();
    let query = q.sql();
    assert_eq!(
        "select * from users where id = 1 or id = 2 or id = 3 ",
        query
    );
    Ok(())
}

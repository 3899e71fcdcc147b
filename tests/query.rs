use dawnorm::context::{DbSet, Misuse, Ordering};
use dawnorm::entity::{values_of, Entity, EntityModel};
use dawnorm::error::Error;
use dawnorm::value::{Column, EntityFieldDefinition, Row, SqlValue, ValueKind};

#[derive(Debug, PartialEq)]
struct Post {
    id: i32,
    title: String,
    body: Option<String>,
}

fn field(name: &str, kind: ValueKind, optional: bool, markers: &[&str]) -> EntityFieldDefinition {
    EntityFieldDefinition {
        name: name.to_string(),
        optional,
        kind,
        markers: markers.iter().map(|m| m.to_string()).collect(),
    }
}

impl Entity for Post {
    fn model() -> EntityModel {
        EntityModel::new(vec![
            field("id", ValueKind::Int, false, &["key_noinsert_noupdate"]),
            field("title", ValueKind::Text, false, &[]),
            field("body", ValueKind::Text, true, &[]),
        ])
    }

    fn value_at(&self, index: usize) -> SqlValue {
        match index {
            0 => SqlValue::Int(self.id),
            1 => SqlValue::Text(self.title.clone()),
            2 => match &self.body {
                Some(b) => SqlValue::Text(b.clone()),
                None => SqlValue::Null,
            },
            _ => SqlValue::Null,
        }
    }

    fn from_values(values: Vec<SqlValue>) -> Self {
        let mut it = values.into_iter();
        let id = match it.next() {
            Some(SqlValue::Int(i)) => i,
            _ => 0,
        };
        let title = match it.next() {
            Some(SqlValue::Text(t)) => t,
            _ => String::new(),
        };
        let body = match it.next() {
            Some(SqlValue::Text(t)) => Some(t),
            _ => None,
        };
        Post { id, title, body }
    }
}

fn text(s: &str) -> SqlValue {
    SqlValue::Text(s.to_string())
}

fn column(name: &str, value: SqlValue) -> Column {
    Column { name: name.to_string(), value }
}

fn post_row(id: i32, title: &str, body: Option<&str>) -> Row {
    Row {
        columns: vec![
            column("id", SqlValue::Int(id)),
            column("title", text(title)),
            column("body", body.map(text).unwrap_or(SqlValue::Null)),
        ],
    }
}

fn posts() -> DbSet<Post> {
    DbSet::new("posts".to_string(), Post::model())
}

fn values(set: &DbSet<Post>, p: &Post) -> Vec<SqlValue> {
    values_of(set.model(), p)
}

#[test]
fn bare_builder_compiles_without_clauses() {
    let mut set = posts();
    let (q, parms) = set.select_query(false);
    assert_eq!(q, "SELECT id, title, body FROM posts ;");
    assert!(parms.is_empty());
}

#[test]
fn filter_order_take_compile() {
    let mut set = posts()
        .filter("title = $1", vec![text("test")])
        .order_by("id", Ordering::ASC)
        .take(1);
    let (q, parms) = set.select_query(false);
    assert_eq!(q, "SELECT id, title, body FROM posts WHERE title = $1 ORDER BY id ASC LIMIT 1;");
    assert_eq!(parms, vec![text("test")]);
    assert!(!set.has_filter());
}

#[test]
fn all_clauses_in_order() {
    let mut set = posts()
        .skip(20)
        .take(10)
        .order_by("title", Ordering::DESC)
        .order_by("id", Ordering::ASC)
        .filter("id > $1", vec![SqlValue::Int(3)]);
    let (q, parms) = set.select_query(false);
    assert_eq!(
        q,
        "SELECT id, title, body FROM posts WHERE id > $1 ORDER BY title DESC, id ASC LIMIT 10 OFFSET 20;"
    );
    assert_eq!(parms, vec![SqlValue::Int(3)]);
}

#[test]
fn two_orderings_compile() {
    let mut set = posts().order_by("id", Ordering::ASC).order_by("title", Ordering::DESC);
    let (q, parms) = set.select_query(false);
    assert_eq!(q, "SELECT id, title, body FROM posts ORDER BY id ASC, title DESC;");
    assert!(parms.is_empty());
}

#[test]
fn single_read_limits_to_one_row() {
    let mut set = posts().skip(5).take(7).order_by("id", Ordering::DESC);
    let (q, parms) = set.select_query(true);
    assert_eq!(q, "SELECT id, title, body FROM posts ORDER BY id DESC LIMIT 1;");
    assert!(parms.is_empty());
}

#[test]
fn second_filter_replaces_first() {
    let mut set = posts()
        .filter("id = $1", vec![SqlValue::Int(1)])
        .filter("title = $1", vec![text("x")]);
    let (q, parms) = set.select_query(false);
    assert_eq!(q, "SELECT id, title, body FROM posts WHERE title = $1;");
    assert_eq!(parms, vec![text("x")]);
}

#[test]
fn filter_on_key() {
    let mut set = posts().filter_pk(SqlValue::Int(5));
    let (q, parms) = set.select_query(true);
    assert_eq!(q, "SELECT id, title, body FROM posts WHERE id = $1 LIMIT 1;");
    assert_eq!(parms, vec![SqlValue::Int(5)]);
}

#[test]
fn delete_on_filter_without_filter_is_misuse() {
    let mut set = posts();
    assert!(matches!(set.exec_delete_query(), Err(Misuse::MissingFilter)));
}

#[test]
fn delete_on_filter() {
    let mut set = posts().filter("title = $1", vec![text("old")]);
    let (q, parms) = set.exec_delete_query().unwrap();
    assert_eq!(q, "DELETE FROM posts WHERE title = $1;");
    assert_eq!(parms, vec![text("old")]);
    assert!(matches!(set.exec_delete_query(), Err(Misuse::MissingFilter)));
}

#[test]
fn update_field_on_filter() {
    let mut set = posts().filter("id = $1 or id = $2", vec![SqlValue::Int(1), SqlValue::Int(2)]);
    let (q, parms) = set.update_field_query("title", text("new")).unwrap();
    assert_eq!(q, "UPDATE posts SET title = $3 WHERE id = $1 or id = $2;");
    assert_eq!(parms, vec![SqlValue::Int(1), SqlValue::Int(2), text("new")]);
    let mut bare = posts();
    assert!(matches!(bare.update_field_query("title", text("new")), Err(Misuse::MissingFilter)));
}

#[test]
fn delete_by_key() {
    let set = posts();
    let (q, parms) = set.delete_pk_query(SqlValue::Int(9));
    assert_eq!(q, "DELETE FROM posts WHERE id = $1;");
    assert_eq!(parms, vec![SqlValue::Int(9)]);
    assert!(DbSet::<Post>::deleted_one(1));
    assert!(!DbSet::<Post>::deleted_one(0));
    assert!(!DbSet::<Post>::deleted_one(2));
}

#[test]
fn write_queries_bind_record_values() {
    let set = posts();
    let p = Post { id: 4, title: "t".to_string(), body: Some("b".to_string()) };
    let (q, parms) = set.delete_query(&values(&set, &p));
    assert_eq!(q, "DELETE FROM posts WHERE (id) = ($1);");
    assert_eq!(parms, vec![SqlValue::Int(4)]);
    let u = Post { id: 4, title: "t".to_string(), body: None };
    let (q, parms) = set.update_query(&values(&set, &u));
    assert_eq!(q, "UPDATE posts SET (title, body) = ($1, $2) WHERE (id) = ($3) RETURNING id, title, body;");
    assert_eq!(parms, vec![text("t"), SqlValue::Null, SqlValue::Int(4)]);
    let (q, parms) = set.insert_query(&values(&set, &p));
    assert_eq!(q, "INSERT INTO posts(title, body) VALUES ($1, $2) RETURNING id, title, body;");
    assert_eq!(parms, vec![text("t"), text("b")]);
}

#[test]
fn zero_rows_for_single_read() {
    let set = posts();
    let found = set.read_first(Vec::new()).unwrap();
    assert!(found.is_none());
    assert!(!DbSet::<Post>::any_of(&found));
    assert!(matches!(DbSet::<Post>::first_of(found), Err(Error::NoResult)));
}

#[test]
fn one_row_for_single_read() {
    let set = posts();
    let found = set.read_first(vec![post_row(1, "a", None)]).unwrap();
    assert!(DbSet::<Post>::any_of(&found));
    let v = DbSet::<Post>::first_of(found).unwrap();
    assert_eq!(v, vec![SqlValue::Int(1), text("a"), SqlValue::Null]);
    assert_eq!(Post::from_values(v), Post { id: 1, title: "a".to_string(), body: None });
}

#[test]
fn returned_row_decodes_to_record() {
    let set = posts();
    let v = set.read_one(vec![post_row(7, "x", Some("y"))]).unwrap();
    assert_eq!(v, vec![SqlValue::Int(7), text("x"), text("y")]);
    assert_eq!(Post::from_values(v), Post { id: 7, title: "x".to_string(), body: Some("y".to_string()) });
}

#[test]
fn decode_errors_name_the_column() {
    let set = posts();
    let missing = Row { columns: vec![column("id", SqlValue::Int(1)), column("body", SqlValue::Null)] };
    match set.read_first(vec![missing]) {
        Err(Error::Decode(name)) => assert_eq!(name, "title"),
        _ => panic!("expected a decode error"),
    }
    let wrong = Row {
        columns: vec![
            column("id", text("1")),
            column("title", SqlValue::Null),
            column("body", SqlValue::Null),
        ],
    };
    match set.read_one(vec![wrong]) {
        Err(Error::Decode(name)) => assert_eq!(name, "id"),
        _ => panic!("expected a decode error"),
    }
    let null_title = Row {
        columns: vec![
            column("id", SqlValue::Int(1)),
            column("title", SqlValue::Null),
            column("body", SqlValue::Null),
        ],
    };
    match set.read_one(vec![null_title]) {
        Err(Error::Decode(name)) => assert_eq!(name, "title"),
        _ => panic!("expected a decode error"),
    }
}

#[test]
fn list_read_decodes_every_row() {
    let set = posts();
    let all = set
        .read_all(vec![post_row(1, "a", None), post_row(2, "b", Some("c"))])
        .unwrap();
    assert_eq!(all.len(), 2);
    assert_eq!(all[0], vec![SqlValue::Int(1), text("a"), SqlValue::Null]);
    let second = Post::from_values(all.into_iter().nth(1).unwrap());
    assert_eq!(second, Post { id: 2, title: "b".to_string(), body: Some("c".to_string()) });
    let bad = Row { columns: vec![column("id", SqlValue::Int(3))] };
    assert!(matches!(set.read_all(vec![post_row(1, "a", None), bad]), Err(Error::Decode(_))));
    assert!(set.read_all(Vec::new()).unwrap().is_empty());
}

#[test]
fn columns_found_by_name_in_any_order() {
    let set = posts();
    let row = Row {
        columns: vec![
            column("body", text("x")),
            column("title", text("y")),
            column("id", SqlValue::Int(8)),
        ],
    };
    let post = Post::from_values(set.read_one(vec![row]).unwrap());
    assert_eq!(post, Post { id: 8, title: "y".to_string(), body: Some("x".to_string()) });
}

#[test]
fn round_trip_through_row() {
    let model = Post::model();
    let values = vec![SqlValue::Int(11), text("title"), SqlValue::Null];
    let row = Row {
        columns: vec![
            column("id", SqlValue::Int(11)),
            column("title", text("title")),
            column("body", SqlValue::Null),
        ],
    };
    let decoded = model.decode_row(&row).unwrap();
    assert_eq!(decoded, values);
    let (_, ins) = model.insert_query("posts", &decoded);
    assert_eq!(ins, vec![text("title"), SqlValue::Null]);
    let (_, upd) = model.update_query("posts", &decoded);
    assert_eq!(upd, vec![text("title"), SqlValue::Null, SqlValue::Int(11)]);
    let (_, del) = model.delete_query("posts", &decoded);
    assert_eq!(del, vec![SqlValue::Int(11)]);
}

#[test]
fn round_trip_each_value_kind() {
    let model = EntityModel::new(vec![
        field("flag", ValueKind::Bool, false, &[]),
        field("small", ValueKind::SmallInt, false, &[]),
        field("num", ValueKind::Int, false, &["key"]),
        field("big", ValueKind::BigInt, false, &[]),
        field("name", ValueKind::Text, true, &[]),
    ]);
    let values = vec![
        SqlValue::Bool(true),
        SqlValue::SmallInt(-3),
        SqlValue::Int(i32::MAX),
        SqlValue::BigInt(i64::MIN),
        text("ü"),
    ];
    let names = ["flag", "small", "num", "big", "name"];
    let row = Row {
        columns: names.iter().zip(values.iter()).map(|(n, v)| column(n, v.copy())).collect(),
    };
    let decoded = model.decode_row(&row).unwrap();
    assert_eq!(decoded, values);
    let (q, ins) = model.insert_query("t", &decoded);
    assert_eq!(q, "INSERT INTO t(flag, small, num, big, name) VALUES ($1, $2, $3, $4, $5) RETURNING flag, small, num, big, name;");
    assert_eq!(ins, values);
}

#[test]
fn row_lookup_takes_first_match() {
    let row = Row { columns: vec![column("a", SqlValue::Int(1)), column("a", SqlValue::Int(2))] };
    assert_eq!(row.try_get("a"), Some(&SqlValue::Int(1)));
    assert_eq!(row.try_get("b"), None);
}

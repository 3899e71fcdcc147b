use dawnorm::migration::Migrator;

#[test]
fn migrations_kept_in_order() {
    let m = Migrator::new()
        .add_up("initial-migration", "CREATE TABLE a (id INT);")
        .add_up_down("second", "CREATE TABLE b (id INT);", "DROP TABLE b;");
    assert_eq!(m.migrations.len(), 2);
    assert_eq!(m.migrations[0].name, "initial-migration");
    assert_eq!(m.migrations[0].up_sql, "CREATE TABLE a (id INT);");
    assert!(m.migrations[0].down_sql.is_none());
    assert_eq!(m.migrations[1].name, "second");
    assert_eq!(m.migrations[1].down_sql.as_deref(), Some("DROP TABLE b;"));
}

#[test]
fn new_migrator_is_empty() {
    assert!(Migrator::new().migrations.is_empty());
}

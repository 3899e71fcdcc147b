use dawnorm::codegen::{
    delete_template, generate_args_list, generate_key_constraint, get_codegen_data,
    insert_template, update_template,
};
use dawnorm::entity::EntityModel;
use dawnorm::value::{EntityFieldDefinition, ValueKind};

fn field(name: &str, kind: ValueKind, optional: bool, markers: &[&str]) -> EntityFieldDefinition {
    EntityFieldDefinition {
        name: name.to_string(),
        optional,
        kind,
        markers: markers.iter().map(|m| m.to_string()).collect(),
    }
}

fn post_fields() -> Vec<EntityFieldDefinition> {
    vec![
        field("id", ValueKind::Int, false, &["key_noinsert_noupdate"]),
        field("title", ValueKind::Text, false, &[]),
        field("body", ValueKind::Text, true, &[]),
    ]
}

fn strings(v: &[&str]) -> Vec<String> {
    v.iter().map(|s| s.to_string()).collect()
}

#[test]
fn args_list_numbers_from_offset() {
    assert_eq!(generate_args_list(3, 0), "$1, $2, $3");
    assert_eq!(generate_args_list(2, 9), "$10, $11");
    assert_eq!(generate_args_list(0, 4), "");
    assert_eq!(generate_args_list(1, 0), "$1");
}

#[test]
fn key_constraint_text() {
    assert_eq!(generate_key_constraint(&strings(&["id"]), 2), "(id) = ($3)");
    assert_eq!(generate_key_constraint(&strings(&["a", "b"]), 0), "(a, b) = ($1, $2)");
    assert_eq!(generate_key_constraint(&[], 0), "() = ()");
}

#[test]
fn query_fields_hold_every_field_in_order() {
    let fields = vec![
        field("a", ValueKind::Int, false, &["key", "noupdate"]),
        field("b", ValueKind::Text, false, &["noinsert_noupdate"]),
        field("c", ValueKind::Bool, true, &[]),
        field("d", ValueKind::BigInt, false, &["key_noinsert"]),
    ];
    let data = get_codegen_data(&fields);
    assert_eq!(data.query_fields, strings(&["a", "b", "c", "d"]));
    assert_eq!(data.key_fields, strings(&["a", "d"]));
    assert_eq!(data.insert_fields, strings(&["a", "c"]));
    assert_eq!(data.update_fields, strings(&["c", "d"]));
}

#[test]
fn markers_decide_membership() {
    let fields = vec![
        field("k", ValueKind::Int, false, &["key"]),
        field("n", ValueKind::Int, false, &["noinsert"]),
        field("u", ValueKind::Int, false, &["noupdate"]),
        field("plain", ValueKind::Text, false, &[]),
        field("other", ValueKind::Text, false, &["primarykey_x"]),
    ];
    let data = get_codegen_data(&fields);
    assert_eq!(data.key_fields, strings(&["k", "other"]));
    assert_eq!(data.insert_fields, strings(&["k", "u", "plain", "other"]));
    assert_eq!(data.update_fields, strings(&["k", "n", "plain", "other"]));
    assert_eq!(data.query_fields.len(), 5);
}

#[test]
fn no_fields_give_empty_lists() {
    let data = get_codegen_data(&[]);
    assert!(data.key_fields.is_empty());
    assert!(data.insert_fields.is_empty());
    assert!(data.update_fields.is_empty());
    assert!(data.query_fields.is_empty());
}

#[test]
fn post_templates() {
    let data = get_codegen_data(&post_fields());
    assert_eq!(
        insert_template(&data).text(),
        "INSERT INTO {}(title, body) VALUES ($1, $2) RETURNING id, title, body;"
    );
    assert_eq!(
        update_template(&data).text(),
        "UPDATE {} SET (title, body) = ($1, $2) WHERE (id) = ($3) RETURNING id, title, body;"
    );
    assert_eq!(delete_template(&data).text(), "DELETE FROM {} WHERE (id) = ($1);");
}

#[test]
fn update_placeholders_continue_after_set_list() {
    let fields = vec![
        field("a", ValueKind::Int, false, &["key"]),
        field("b", ValueKind::Int, false, &["key"]),
        field("c", ValueKind::Int, false, &[]),
    ];
    let model = EntityModel::new(fields);
    assert_eq!(
        model.update_template().render("t"),
        "UPDATE t SET (a, b, c) = ($1, $2, $3) WHERE (a, b) = ($4, $5) RETURNING a, b, c;"
    );
    assert_eq!(
        model.insert_template().render("t"),
        "INSERT INTO t(a, b, c) VALUES ($1, $2, $3) RETURNING a, b, c;"
    );
    assert_eq!(model.delete_template().render("t"), "DELETE FROM t WHERE (a, b) = ($1, $2);");
}

#[test]
fn empty_key_set_degenerates() {
    let fields = vec![field("a", ValueKind::Int, false, &[])];
    let model = EntityModel::new(fields);
    assert_eq!(model.delete_template().render("t"), "DELETE FROM t WHERE () = ();");
    assert!(model.key_name().is_none());
}

#[test]
fn model_select_columns() {
    let model = EntityModel::new(post_fields());
    assert_eq!(model.sql_fields(), "id, title, body");
    assert_eq!(model.key_name().map(|s| s.as_str()), Some("id"));
    assert_eq!(model.len(), 3);
    assert_eq!(model.fields()[0].psql_type(), "INT");
    assert_eq!(model.fields()[2].psql_type(), "TEXT");
}

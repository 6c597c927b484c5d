use rust_db_talk::schema::{catalog_query, column_query, describe, is_system_table, render_schema, ColumnInfo, TableSchema};

fn table(name: &str, cols: &[(&str, &str)]) -> TableSchema {
    TableSchema {
        name: name.to_string(),
        columns: cols.iter().map(|(n, t)| ColumnInfo { name: n.to_string(), col_type: t.to_string() }).collect(),
    }
}

#[test]
fn describe_keeps_user_tables_in_order() {
    let catalog = vec![
        table("todolist", &[("id", "INTEGER"), ("title", "TEXT")]),
        table("sqlite_sequence", &[("name", ""), ("seq", "")]),
        table("project", &[("project_id", "INTEGER"), ("name", "TEXT"), ("deadline", "TIMESTAMP")]),
    ];
    let snap = describe(catalog);
    assert_eq!(snap.len(), 2);
    assert_eq!(snap[0].name, "todolist");
    assert_eq!(snap[1].name, "project");
    let cols: Vec<&str> = snap[1].columns.iter().map(|c| c.name.as_str()).collect();
    assert_eq!(cols, vec!["project_id", "name", "deadline"]);
}

#[test]
fn describe_of_empty_catalog_is_empty() {
    assert_eq!(describe(vec![]).len(), 0);
    assert_eq!(describe(vec![table("sqlite_stat1", &[])]).len(), 0);
}

#[test]
fn system_prefix_is_exact() {
    assert!(is_system_table("sqlite_master"));
    assert!(!is_system_table("sqlite"));
    assert!(!is_system_table("my_sqlite_table"));
}

#[test]
fn schema_renders_as_text() {
    let snap = vec![table("todolist", &[("id", "INTEGER"), ("title", "TEXT")]), table("empty", &[])];
    assert_eq!(render_schema(&snap), "Table \"todolist\":\n- id (INTEGER)\n- title (TEXT)\n\nTable \"empty\":\n\n");
}

#[test]
fn catalog_queries() {
    assert_eq!(column_query("todolist"), "PRAGMA table_info('todolist')");
    assert_eq!(column_query("it's"), "PRAGMA table_info('it''s')");
    assert_eq!(column_query("''"), "PRAGMA table_info('''''')");
    assert_eq!(catalog_query(), "SELECT name FROM sqlite_master WHERE type='table';");
}

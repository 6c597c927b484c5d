use rust_db_talk::chain::ChainError;
use rust_db_talk::executor::{format_rows, render_cell, settle_query, CellValue, ExecutionPolicy, NO_RESULT};

fn text(s: &str) -> CellValue {
    CellValue::Text(s.to_string())
}

#[test]
fn null_cell_in_second_row_reads_null() {
    let rows = vec![
        vec![CellValue::Integer(1), text("Task 1"), text("Detail 1")],
        vec![CellValue::Integer(2), text("Task 2"), CellValue::Null],
    ];
    let out = format_rows(&rows);
    assert_eq!(out, "1, Task 1, Detail 1\n2, Task 2, NULL\n");
    let second: Vec<&str> = out.lines().nth(1).unwrap().split(", ").collect();
    assert_eq!(second[2], "NULL");
}

#[test]
fn test_get_database_query() {
    let rows = vec![
        vec![CellValue::Integer(1), text("Task 1"), text("Detail 1"), CellValue::Boolean(false), text("2024-01-01 00:00:00")],
        vec![CellValue::Integer(2), text("Task 2"), text("Detail 2"), CellValue::Boolean(false), text("2024-01-01 00:00:00")],
    ];
    let out = format_rows(&rows);
    assert!(out.contains("Task 1"));
    assert!(out.contains("Task 2"));
    assert_eq!(out, "1, Task 1, Detail 1, false, 2024-01-01 00:00:00\n2, Task 2, Detail 2, false, 2024-01-01 00:00:00\n");
}

#[test]
fn no_rows_give_empty_text() {
    assert_eq!(format_rows(&vec![]), "");
    assert_eq!(format_rows(&vec![vec![]]), "\n");
}

#[test]
fn integers_render_in_decimal() {
    assert_eq!(render_cell(&CellValue::Integer(0)), "0");
    assert_eq!(render_cell(&CellValue::Integer(2)), "2");
    assert_eq!(render_cell(&CellValue::Integer(-4071)), "-4071");
    assert_eq!(render_cell(&CellValue::Integer(i64::MAX)), "9223372036854775807");
    assert_eq!(render_cell(&CellValue::Integer(i64::MIN)), "-9223372036854775808");
    assert_eq!(render_cell(&CellValue::Boolean(true)), "true");
    assert_eq!(render_cell(&CellValue::Null), "NULL");
}

#[test]
fn degraded_policy_gives_sentinel() {
    let r = settle_query(ExecutionPolicy::Degraded, Err("near \"SELEC\": syntax error".to_string()));
    assert_eq!(r.unwrap(), NO_RESULT);
    assert_eq!(NO_RESULT, "no result available — query could not be executed");
}

#[test]
fn strict_policy_gives_typed_error() {
    let r = settle_query(ExecutionPolicy::Strict, Err("near \"SELEC\": syntax error".to_string()));
    match r {
        Err(ChainError::QueryExecutionFailed { cause }) => assert_eq!(cause, "near \"SELEC\": syntax error"),
        other => panic!("unexpected {:?}", other),
    }
}

#[test]
fn success_is_formatted_under_either_policy() {
    for policy in [ExecutionPolicy::Strict, ExecutionPolicy::Degraded] {
        let r = settle_query(policy, Ok(vec![vec![CellValue::Integer(2)]]));
        assert_eq!(r.unwrap(), "2\n");
    }
}

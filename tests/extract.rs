use rust_db_talk::extract::DbUtill;

#[test]
fn fenced_block_with_trailing_commentary() {
    let raw = "Sure! ```sql\nSELECT * FROM todolist;\n``` Response : done";
    assert_eq!(DbUtill::extract_sql(raw), "SELECT * FROM todolist");
}

#[test]
fn no_fence_and_no_verb_gives_trimmed_input() {
    assert_eq!(DbUtill::extract_sql("  I cannot answer that.  \n"), "I cannot answer that.");
}

#[test]
fn empty_and_blank_input_give_empty() {
    assert_eq!(DbUtill::extract_sql(""), "");
    assert_eq!(DbUtill::extract_sql(" \t\n "), "");
}

#[test]
fn unfenced_verb_cut_at_response_marker() {
    let raw = "Here you go: SELECT title FROM todolist WHERE is_done = 0; Response : the titles";
    assert_eq!(DbUtill::extract_sql(raw), "SELECT title FROM todolist WHERE is_done = 0");
}

#[test]
fn unfenced_verb_without_marker() {
    assert_eq!(DbUtill::extract_sql("SQL: DELETE FROM todolist;;  "), "DELETE FROM todolist");
}

#[test]
fn earliest_verb_wins() {
    let raw = "INSERT INTO archive SELECT * FROM todolist;";
    assert_eq!(DbUtill::extract_sql(raw), "INSERT INTO archive SELECT * FROM todolist");
}

#[test]
fn fence_without_language_tag() {
    assert_eq!(DbUtill::extract_sql("```\nUPDATE todolist SET is_done = 1;\n```"), "UPDATE todolist SET is_done = 1");
}

#[test]
fn unclosed_fence_falls_back_to_verb() {
    assert_eq!(DbUtill::extract_sql("```sql\nSELECT 1;"), "SELECT 1");
}

#[test]
fn count_query_in_fence() {
    let raw = "```sql\nSELECT COUNT(*) FROM todolist;\n```";
    assert_eq!(DbUtill::extract_sql(raw), "SELECT COUNT(*) FROM todolist");
}

#[test]
fn extraction_is_idempotent_on_plain_sql() {
    for raw in ["  SELECT id FROM todolist ;", "just words", "UPDATE t SET a = 1; trailing", ""] {
        let once = DbUtill::extract_sql(raw);
        assert_eq!(DbUtill::extract_sql(&once), once);
    }
}

#[test]
fn non_ascii_text_is_kept() {
    assert_eq!(DbUtill::extract_sql("\u{3000}SELECT 'é' FROM t;\u{a0}"), "SELECT 'é' FROM t");
}

#[test]
fn whole_info_string_is_skipped() {
    assert_eq!(DbUtill::extract_sql("```sqlite\nSELECT 1\n```"), "SELECT 1");
    assert_eq!(DbUtill::extract_sql("```SQL  \nSELECT 2;\n```"), "SELECT 2");
    assert_eq!(DbUtill::extract_sql("```SELECT 3```"), "SELECT 3");
    assert_eq!(DbUtill::extract_sql("```SELECT *\nFROM t;\n```"), "SELECT *\nFROM t");
}

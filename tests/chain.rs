use rust_db_talk::chain::{Action, ChainConfig, ChainError, ChainRun, Event, Phase, Stage};
use rust_db_talk::config::ConfigError;
use rust_db_talk::executor::{CellValue, ExecutionPolicy, NO_RESULT};
use rust_db_talk::prompt::{build_answer_prompt, build_sql_prompt};
use rust_db_talk::schema::{ColumnInfo, TableSchema};

fn todolist() -> TableSchema {
    let cols = ["id", "title", "detail", "is_done", "created_at"];
    let types = ["INTEGER", "TEXT", "TEXT", "BOOLEAN", "TIMESTAMP"];
    TableSchema {
        name: "todolist".to_string(),
        columns: cols.iter().zip(types.iter()).map(|(n, t)| ColumnInfo { name: n.to_string(), col_type: t.to_string() }).collect(),
    }
}

fn new_run(policy: ExecutionPolicy, question: &str) -> ChainRun {
    let config = ChainConfig::new("sqlcoder:7b".to_string(), "llama3".to_string(), policy).unwrap();
    ChainRun::new(config, question.to_string())
}

fn to_schema_step(run: &mut ChainRun) -> (String, String) {
    assert!(matches!(run.advance(Event::Begin), Action::ReadSchema));
    match run.advance(Event::SchemaRead { catalog: vec![todolist()] }) {
        Action::Generate { stage, model, prompt } => {
            assert_eq!(stage, Stage::SqlSynthesis);
            (model, prompt)
        }
        other => panic!("unexpected {:?}", other),
    }
}

#[test]
fn end_to_end_two_stage_wiring() {
    let question = "how many tasks are there?";
    let mut run = new_run(ExecutionPolicy::Strict, question);
    let (model, prompt) = to_schema_step(&mut run);
    assert_eq!(model, "sqlcoder:7b");
    assert_eq!(prompt, build_sql_prompt(&vec![todolist()], question));
    assert!(prompt.contains("Table \"todolist\":\n- id (INTEGER)\n"));
    let sql = match run.advance(Event::Generated { text: "```sql\nSELECT COUNT(*) FROM todolist;\n```".to_string() }) {
        Action::Execute { sql } => sql,
        other => panic!("unexpected {:?}", other),
    };
    assert_eq!(sql, "SELECT COUNT(*) FROM todolist");
    let (model2, prompt2) = match run.advance(Event::Executed { outcome: Ok(vec![vec![CellValue::Integer(2)]]) }) {
        Action::Generate { stage, model, prompt } => {
            assert_eq!(stage, Stage::AnswerSynthesis);
            (model, prompt)
        }
        other => panic!("unexpected {:?}", other),
    };
    assert_eq!(model2, "llama3");
    assert_ne!(model2, model);
    assert_eq!(prompt2, build_answer_prompt("2\n", question));
    let echoed = prompt2.clone();
    match run.advance(Event::Generated { text: echoed.clone() }) {
        Action::Finish { answer } => assert_eq!(answer, echoed),
        other => panic!("unexpected {:?}", other),
    }
    assert_eq!(run.phase, Phase::Done);
}

#[test]
fn sql_prompt_holds_rules_and_trimmed_question() {
    let p = build_sql_prompt(&vec![todolist()], "  how many tasks?\n");
    assert!(p.contains("\nhow many tasks?\n"));
    assert!(p.contains("single SQL statement"));
    assert!(p.starts_with("You are a database expert."));
}

#[test]
fn answer_prompt_exact_text() {
    assert_eq!(
        build_answer_prompt("2\n", "how many?"),
        "base on provid data 2\n. please answer the question how many? with natural language"
    );
}

#[test]
fn schema_failure_aborts() {
    let mut run = new_run(ExecutionPolicy::Strict, "q");
    run.advance(Event::Begin);
    match run.advance(Event::SchemaFailed { cause: "locked".to_string() }) {
        Action::Abort { error: ChainError::SchemaUnavailable { cause } } => assert_eq!(cause, "locked"),
        other => panic!("unexpected {:?}", other),
    }
    assert_eq!(run.phase, Phase::Failed);
}

#[test]
fn generation_failures_name_their_stage() {
    let mut run = new_run(ExecutionPolicy::Strict, "q");
    to_schema_step(&mut run);
    match run.advance(Event::GenerationFailed { cause: "timeout".to_string() }) {
        Action::Abort { error: ChainError::GenerationFailed { stage, .. } } => assert_eq!(stage, Stage::SqlSynthesis),
        other => panic!("unexpected {:?}", other),
    }
    let mut run = new_run(ExecutionPolicy::Degraded, "q");
    to_schema_step(&mut run);
    run.advance(Event::Generated { text: "SELECT 1".to_string() });
    run.advance(Event::Executed { outcome: Ok(vec![]) });
    match run.advance(Event::GenerationFailed { cause: "503".to_string() }) {
        Action::Abort { error: ChainError::GenerationFailed { stage, cause } } => {
            assert_eq!(stage, Stage::AnswerSynthesis);
            assert_eq!(cause, "503");
        }
        other => panic!("unexpected {:?}", other),
    }
}

#[test]
fn failed_query_under_each_policy() {
    let mut strict = new_run(ExecutionPolicy::Strict, "q");
    to_schema_step(&mut strict);
    strict.advance(Event::Generated { text: "SELEC oops".to_string() });
    match strict.advance(Event::Executed { outcome: Err("syntax error".to_string()) }) {
        Action::Abort { error: ChainError::QueryExecutionFailed { cause } } => assert_eq!(cause, "syntax error"),
        other => panic!("unexpected {:?}", other),
    }
    let mut degraded = new_run(ExecutionPolicy::Degraded, "q");
    to_schema_step(&mut degraded);
    match degraded.advance(Event::Generated { text: "SELEC oops".to_string() }) {
        Action::Execute { sql } => assert_eq!(sql, "SELEC oops"),
        other => panic!("unexpected {:?}", other),
    }
    match degraded.advance(Event::Executed { outcome: Err("syntax error".to_string()) }) {
        Action::Generate { prompt, .. } => assert_eq!(prompt, build_answer_prompt(NO_RESULT, "q")),
        other => panic!("unexpected {:?}", other),
    }
}

#[test]
fn out_of_order_events_are_ignored() {
    let mut run = new_run(ExecutionPolicy::Strict, "q");
    assert!(matches!(run.advance(Event::Generated { text: "x".to_string() }), Action::Ignore));
    assert_eq!(run.phase, Phase::Ready);
    run.advance(Event::Begin);
    assert!(matches!(run.advance(Event::Begin), Action::Ignore));
    assert_eq!(run.phase, Phase::ReadingSchema);
}

#[test]
fn equal_models_are_refused() {
    match ChainConfig::new("llama3".to_string(), "llama3".to_string(), ExecutionPolicy::Strict) {
        Err(ConfigError::SameModels { model }) => assert_eq!(model, "llama3"),
        Err(other) => panic!("unexpected {:?}", other),
        Ok(_) => panic!("equal models accepted"),
    }
}

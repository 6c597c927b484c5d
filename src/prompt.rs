//! The two prompts of the chain. Both are pure functions of their inputs.
use vstd::prelude::*;
use crate::schema::{render_schema, schema_text, TableSchema};
use crate::text::{trim, trim_str};

verus! {

pub const SQL_PROMPT_HEAD: &'static str = "You are a database expert.\n\nDatabase Schema:\n";

pub const SQL_PROMPT_RULES: &'static str = "\nInstructions:\n- Generate ONE correct SQL query for SQLite that answers the given user question.\n- Output only a single SQL statement: no markdown, no commentary, no prefixes (such as 'Example:', 'SQL:', 'Response:', 'Result:').\n- No code blocks (no ```sql fences).\n\nUser Question:\n";

pub const SQL_PROMPT_TAIL: &'static str = "\n\nRemember: ONLY output a valid SQL command.";

pub const ANSWER_PROMPT_HEAD: &'static str = "base on provid data ";

pub const ANSWER_PROMPT_MID: &'static str = ". please answer the question ";

pub const ANSWER_PROMPT_TAIL: &'static str = " with natural language";

/// The SQL-synthesis prompt for a rendered schema and a question.
pub open spec fn sql_prompt_text(schema: Seq<char>, question: Seq<char>) -> Seq<char> {
    SQL_PROMPT_HEAD@ + schema + SQL_PROMPT_RULES@ + trim(question) + SQL_PROMPT_TAIL@
}

/// The answer-synthesis prompt for retrieved data and a question.
pub open spec fn answer_prompt_text(context: Seq<char>, question: Seq<char>) -> Seq<char> {
    ANSWER_PROMPT_HEAD@ + context + ANSWER_PROMPT_MID@ + question + ANSWER_PROMPT_TAIL@
}

/// The prompt that asks for one SQL statement: the whole schema, the
/// output rules and the trimmed question.
pub fn build_sql_prompt(schema: &Vec<TableSchema>, question: &str) -> (r: String)
    ensures
        r@ == sql_prompt_text(schema_text(schema@), question@),
{
    let mut p = String::from_str(SQL_PROMPT_HEAD);
    let rendered = render_schema(schema);
    p.append(rendered.as_str());
    p.append(SQL_PROMPT_RULES);
    p.append(trim_str(question));
    p.append(SQL_PROMPT_TAIL);
    p
}

/// The prompt that asks for a conversational answer from the retrieved data.
pub fn build_answer_prompt(context: &str, question: &str) -> (r: String)
    ensures
        r@ == answer_prompt_text(context@, question@),
{
    let mut p = String::from_str(ANSWER_PROMPT_HEAD);
    p.append(context);
    p.append(ANSWER_PROMPT_MID);
    p.append(question);
    p.append(ANSWER_PROMPT_TAIL);
    p
}

} // verus!

//! The two-stage chain: its errors, its configuration and the state machine
//! that decides each step.
use vstd::prelude::*;
use crate::config::ConfigError;
use crate::executor::{rows_text, no_result_text, settle_query, CellValue, ExecutionPolicy};
use crate::extract::{extracted, DbUtill};
use crate::prompt::{answer_prompt_text, build_answer_prompt, build_sql_prompt, sql_prompt_text};
use crate::schema::{describe, schema_text, user_tables, TableSchema};

verus! {

/// The generation call that failed.
#[derive(Clone, Copy, Debug, PartialEq, Eq, Structural)]
pub enum Stage {
    /// The call that turns the question into SQL.
    SqlSynthesis,
    /// The call that turns the result into an answer.
    AnswerSynthesis,
}

/// Why a run, or the setup of a chain, failed.
#[derive(Debug)]
pub enum ChainError {
    /// The database or the generation service could not be opened.
    InitializationFailed { cause: String },
    /// The catalog could not be read.
    SchemaUnavailable { cause: String },
    /// A generation call failed or timed out.
    GenerationFailed { stage: Stage, cause: String },
    /// The statement could not be executed (strict policy only).
    QueryExecutionFailed { cause: String },
}

/// A question-answering pipeline. Each `run` starts afresh from the
/// question and yields the final answer or the error of the failed stage.
pub trait Chain {
    /// Opens the resources of the chain.
    fn initialize() -> Result<Self, ChainError> where Self: Sized;

    /// Answers one question.
    fn run(&self, input: String) -> Result<String, ChainError>;
}

/// What a chain needs besides its connections: the two distinct models and
/// the policy for a statement that cannot be executed. `ChainConfig::new`
/// checks that the models differ.
pub struct ChainConfig {
    pub sql_model: String,
    pub answer_model: String,
    pub policy: ExecutionPolicy,
}

/// Where a run stands.
#[derive(Clone, Copy, Debug, PartialEq, Eq, Structural)]
pub enum Phase {
    Ready,
    ReadingSchema,
    GeneratingSql,
    ExecutingQuery,
    GeneratingAnswer,
    Done,
    Failed,
}

/// What the outside world reports back to a run.
#[derive(Debug)]
pub enum Event {
    /// Begin the run.
    Begin,
    /// The catalog listing, every table with its columns.
    SchemaRead { catalog: Vec<TableSchema> },
    /// The catalog could not be read.
    SchemaFailed { cause: String },
    /// A generation call returned this text.
    Generated { text: String },
    /// A generation call failed.
    GenerationFailed { cause: String },
    /// The statement ran and gave these rows, or failed with this cause.
    Executed { outcome: Result<Vec<Vec<CellValue>>, String> },
}

/// What a run asks the outside world to do next.
#[derive(Debug)]
pub enum Action {
    /// List the catalog.
    ReadSchema,
    /// Call the generation service.
    Generate { stage: Stage, model: String, prompt: String },
    /// Execute one statement.
    Execute { sql: String },
    /// The run is over with this answer.
    Finish { answer: String },
    /// The run is over with this error.
    Abort { error: ChainError },
    /// The event does not fit the phase; nothing changed.
    Ignore,
}

impl ChainConfig {
    /// A configuration with two distinct models; the same identifier for
    /// both is refused.
    pub fn new(sql_model: String, answer_model: String, policy: ExecutionPolicy) -> (r: Result<
        ChainConfig,
        ConfigError,
    >)
        ensures
            sql_model@ != answer_model@ ==> (r matches Ok(c) && c.sql_model@ == sql_model@
                && c.answer_model@ == answer_model@ && c.policy == policy),
            sql_model@ == answer_model@ ==> (r matches Err(ConfigError::SameModels { model })
                && model@ == sql_model@),
    {
        if sql_model == answer_model {
            Err(ConfigError::SameModels { model: sql_model })
        } else {
            Ok(ChainConfig { sql_model, answer_model, policy })
        }
    }
}

/// One run of the chain for one question.
pub struct ChainRun {
    pub question: String,
    pub sql_model: String,
    pub answer_model: String,
    pub policy: ExecutionPolicy,
    pub phase: Phase,
}

impl ChainRun {
    /// A run for `question`, ready to begin.
    pub fn new(config: ChainConfig, question: String) -> (r: ChainRun)
        requires
            config.sql_model@ != config.answer_model@,
        ensures
            r.phase == Phase::Ready,
            r.question@ == question@,
            r.sql_model@ == config.sql_model@,
            r.answer_model@ == config.answer_model@,
            r.policy == config.policy,
    {
        ChainRun {
            question,
            sql_model: config.sql_model,
            answer_model: config.answer_model,
            policy: config.policy,
            phase: Phase::Ready,
        }
    }

    /// Takes one event and decides the next phase and action.
    ///
    /// The schema leads to the SQL prompt for the SQL model; its text to the
    /// extracted statement; the execution outcome, settled by the policy, to
    /// the answer prompt for the answer model; the answer ends the run
    /// verbatim. A failure ends the run with the error of its stage.
    pub fn advance(&mut self, event: Event) -> (a: Action)
        ensures
            final(self).question@ == old(self).question@,
            final(self).sql_model@ == old(self).sql_model@,
            final(self).answer_model@ == old(self).answer_model@,
            final(self).policy == old(self).policy,
            match (old(self).phase, event) {
                (Phase::Ready, Event::Begin) => {
                    &&& final(self).phase == Phase::ReadingSchema
                    &&& a is ReadSchema
                },
                (Phase::ReadingSchema, Event::SchemaRead { catalog }) => {
                    &&& final(self).phase == Phase::GeneratingSql
                    &&& (a matches Action::Generate { stage, model, prompt }
                        && stage == Stage::SqlSynthesis && model@ == old(self).sql_model@
                        && prompt@ == sql_prompt_text(
                        schema_text(user_tables(catalog@)),
                        old(self).question@,
                    ))
                },
                (Phase::ReadingSchema, Event::SchemaFailed { cause }) => {
                    &&& final(self).phase == Phase::Failed
                    &&& (a matches Action::Abort { error: ChainError::SchemaUnavailable { cause: c } }
                        && c@ == cause@)
                },
                (Phase::GeneratingSql, Event::Generated { text }) => {
                    &&& final(self).phase == Phase::ExecutingQuery
                    &&& (a matches Action::Execute { sql } && sql@ == extracted(text@))
                },
                (Phase::GeneratingSql, Event::GenerationFailed { cause }) => {
                    &&& final(self).phase == Phase::Failed
                    &&& (a matches Action::Abort {
                        error: ChainError::GenerationFailed { stage, cause: c },
                    } && stage == Stage::SqlSynthesis && c@ == cause@)
                },
                (Phase::ExecutingQuery, Event::Executed { outcome }) => match outcome {
                    Ok(rows) => {
                        &&& final(self).phase == Phase::GeneratingAnswer
                        &&& (a matches Action::Generate { stage, model, prompt }
                            && stage == Stage::AnswerSynthesis && model@ == old(self).answer_model@
                            && prompt@ == answer_prompt_text(rows_text(rows@), old(self).question@))
                    },
                    Err(cause) => match old(self).policy {
                        ExecutionPolicy::Strict => {
                            &&& final(self).phase == Phase::Failed
                            &&& (a matches Action::Abort {
                                error: ChainError::QueryExecutionFailed { cause: c },
                            } && c@ == cause@)
                        },
                        ExecutionPolicy::Degraded => {
                            &&& final(self).phase == Phase::GeneratingAnswer
                            &&& (a matches Action::Generate { stage, model, prompt }
                                && stage == Stage::AnswerSynthesis && model@
                                == old(self).answer_model@ && prompt@ == answer_prompt_text(
                                no_result_text(),
                                old(self).question@,
                            ))
                        },
                    },
                },
                (Phase::GeneratingAnswer, Event::Generated { text }) => {
                    &&& final(self).phase == Phase::Done
                    &&& (a matches Action::Finish { answer } && answer@ == text@)
                },
                (Phase::GeneratingAnswer, Event::GenerationFailed { cause }) => {
                    &&& final(self).phase == Phase::Failed
                    &&& (a matches Action::Abort {
                        error: ChainError::GenerationFailed { stage, cause: c },
                    } && stage == Stage::AnswerSynthesis && c@ == cause@)
                },
                _ => {
                    &&& final(self).phase == old(self).phase
                    &&& a is Ignore
                },
            },
    {
        match (self.phase, event) {
            (Phase::Ready, Event::Begin) => {
                self.phase = Phase::ReadingSchema;
                Action::ReadSchema
            },
            (Phase::ReadingSchema, Event::SchemaRead { catalog }) => {
                let snapshot = describe(catalog);
                let prompt = build_sql_prompt(&snapshot, self.question.as_str());
                self.phase = Phase::GeneratingSql;
                Action::Generate { stage: Stage::SqlSynthesis, model: self.sql_model.clone(), prompt }
            },
            (Phase::ReadingSchema, Event::SchemaFailed { cause }) => {
                self.phase = Phase::Failed;
                Action::Abort { error: ChainError::SchemaUnavailable { cause } }
            },
            (Phase::GeneratingSql, Event::Generated { text }) => {
                self.phase = Phase::ExecutingQuery;
                Action::Execute { sql: DbUtill::extract_sql(text.as_str()) }
            },
            (Phase::GeneratingSql, Event::GenerationFailed { cause }) => {
                self.phase = Phase::Failed;
                Action::Abort {
                    error: ChainError::GenerationFailed { stage: Stage::SqlSynthesis, cause },
                }
            },
            (Phase::ExecutingQuery, Event::Executed { outcome }) => {
                match settle_query(self.policy, outcome) {
                    Ok(context) => {
                        let prompt = build_answer_prompt(context.as_str(), self.question.as_str());
                        self.phase = Phase::GeneratingAnswer;
                        Action::Generate {
                            stage: Stage::AnswerSynthesis,
                            model: self.answer_model.clone(),
                            prompt,
                        }
                    },
                    Err(error) => {
                        self.phase = Phase::Failed;
                        Action::Abort { error }
                    },
                }
            },
            (Phase::GeneratingAnswer, Event::Generated { text }) => {
                self.phase = Phase::Done;
                Action::Finish { answer: text }
            },
            (Phase::GeneratingAnswer, Event::GenerationFailed { cause }) => {
                self.phase = Phase::Failed;
                Action::Abort {
                    error: ChainError::GenerationFailed { stage: Stage::AnswerSynthesis, cause },
                }
            },
            _ => Action::Ignore,
        }
    }
}

} // verus!

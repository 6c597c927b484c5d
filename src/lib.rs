//! Question-to-SQL-to-answer pipeline: the decision logic of a two-stage
//! text-to-SQL chain. It renders the database schema, builds the two
//! prompts, recovers one SQL statement from model output, formats result
//! rows, and decides each step of a run as a state machine. Reaching the
//! database and the generation service is left to the caller.
pub mod chain;
pub mod config;
pub mod executor;
pub mod extract;
pub mod prompt;
pub mod schema;
pub mod text;

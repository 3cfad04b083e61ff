//! Planning rules for two parts of a SQL planner, with proved contracts: window
//! operators and the binding of `MERGE INTO` statements.

pub mod error;
pub mod matched;
pub mod merge_into;
pub mod merge_laws;
pub mod merge_log;
pub mod plan_laws;
pub mod property;
pub mod scalar;
pub mod schema;
pub mod statement;
pub mod step_laws;
pub mod text;
pub mod unmatched;
pub mod window;

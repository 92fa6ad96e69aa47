//! Core engine of a developer-directory cleanup tool: risk scoring for
//! discovered projects, an assessment cache keyed by manifest content hashes,
//! a delete planner and executor, and a filesystem scanner.

pub mod ai;
pub mod assess;
pub mod cache;
pub mod delete;
pub mod executor;
pub mod risk;
pub mod scanner;
pub mod text;
pub mod types;

//! Orchestration of a run.

pub mod orchestrator;
pub mod report;

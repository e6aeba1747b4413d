//! Evaluation and scheduling of jobsets: a state machine that lets at most one
//! evaluation of a jobset run at a time, records each attempt's timing and
//! outcome, and reads the evaluator's output into build targets.
pub mod model;
pub mod runner;
pub mod evaluator_output;
pub mod coordinator;
pub mod laws;
pub mod store;
pub mod routes;
pub mod dates;
pub mod scheduler;

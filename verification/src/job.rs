//! The job orchestration engine.
//!
//! A job names its sources, one SQL statement, a sink and a dry-run flag.
//! The engine resolves the source store, has every source registered under
//! its alias in a fresh session, has the statement run, and either previews
//! the result or has it written to the sink. Every stage fails fast:
//! nothing is retried, nothing is rolled back, and a job that declares two
//! sources under one alias is rejected rather than letting the later one
//! shadow the earlier.
//!
//! The engine itself performs no I/O. It is a state machine
//! ([`engine::Job`]): it says which piece of outside work comes next
//! ([`engine::Action`]) and is told how that work ended
//! ([`engine::Event`]).
//!
//! * [`model`]: what a job is made of, and how it can fail.
//! * [`store`]: named stores and their resolution.
//! * [`engine`]: the state machine.
//! * [`table`]: a versioned table in memory, with the save modes.
//! * [`lake`]: the gateway and the sink writer over such tables.
//! * [`run`]: a whole job run against tables in memory.
//! * [`laws`]: what holds of every job, every write and every run.

pub mod engine;
pub mod lake;
pub mod laws;
pub mod model;
pub mod run;
pub mod store;
pub mod table;

pub mod error;
pub mod job;
pub mod queue;
pub mod runner;
pub mod schedule;

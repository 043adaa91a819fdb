//! The job scheduler: a queue of transfer tasks started in order, never
//! more at a time than the configured concurrency.

pub mod laws;
pub mod model;
pub mod progress;
pub mod scheduler;
pub mod types;

//! Launching a companion worker process through a prioritised list of
//! strategies, and relaying its tagged output into an append-only log.

pub mod launcher;
pub mod log;
pub mod relay;
pub mod strategy;

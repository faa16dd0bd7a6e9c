//! A minimal job-dispatch coordinator: a registry of polling workers, a ledger
//! of submitted jobs, a queue of jobs not yet handed out, and a reaper that
//! evicts silent workers and fails the jobs they were running.

pub mod auth;
pub mod client;
pub mod laws;
pub mod protocol;
pub mod state;
mod clock;
mod ids;
pub mod types;

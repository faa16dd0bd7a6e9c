//! The textual face of a status, and the defaults the wire relies on.

use zoidberg::state::State;
use zoidberg::types::Status;

#[test]
fn default_status_is_submitted() {
    assert!(matches!(Status::default(), Status::Submitted));
}

#[test]
fn describe_names_each_status() {
    assert_eq!(Status::Submitted.describe(), "submitted");
    assert_eq!(
        Status::Running("w1".to_string()).describe(),
        "running on worker w1"
    );
    assert_eq!(Status::Completed.describe(), "completed");
    assert_eq!(Status::Failed.describe(), "failed");
}

#[test]
fn new_state_is_empty() {
    let state = State::new();
    assert_eq!(state.counter_jobs, 0);
    assert!(state.workers.is_empty());
    assert!(state.new_jobs.is_empty());
    assert!(state.jobs.is_empty());
}

#[test]
fn register_draws_a_hyphenated_id() {
    let mut state = State::new();
    let resp = state.register();
    assert_eq!(resp.id.len(), 36);
    assert_eq!(state.workers.len(), 1);
    assert_eq!(state.workers[0].id, resp.id);
    assert!(state.workers[0].last_heartbeat.is_none());
    let again = state.register();
    assert_eq!(state.workers.len(), 2);
    assert_ne!(resp.id, again.id);
}

//! The liveness reaper: the heartbeat grace period and the cascade from a
//! stale worker to its failed jobs.

use zoidberg::state::{State, STALE_SECS};
use zoidberg::types::{FetchResponse, Heartbeat, Job, Status, StatusRequest};

#[test]
fn worker_that_never_heartbeats_is_never_reaped() {
    let mut state = State::new();
    state.register_with("quiet".to_string());
    state.reap_at(1_000_000_000);
    assert_eq!(state.workers.len(), 1);
    assert_eq!(state.workers[0].id, "quiet");
    assert!(state.workers[0].last_heartbeat.is_none());
}

#[test]
fn fresh_heartbeat_keeps_the_worker() {
    let mut state = State::new();
    state.register_with("alive".to_string());
    state.heartbeat_at(&"alive".to_string(), 1_000);
    state.reap_at(1_000 + STALE_SECS - 1);
    assert_eq!(state.workers.len(), 1);
    assert_eq!(state.workers[0].last_heartbeat, Some(1_000));
}

#[test]
fn stale_worker_is_reaped_and_its_job_fails() {
    let mut state = State::new();
    state.register_with("w1".to_string());
    state.submit(vec![Job {
        id: 0,
        cmd: String::from("sleep"),
        status: Status::Submitted,
    }]);
    match state.fetch(&"w1".to_string()) {
        FetchResponse::Jobs(js) => assert_eq!(js[0].id, 1),
        _ => panic!("the registered worker should get the job"),
    }
    state.heartbeat_at(&"w1".to_string(), 1_000);

    state.reap_at(1_000 + STALE_SECS);

    assert_eq!(state.workers.len(), 0);
    let back = state.status(&vec![StatusRequest { id: 1 }]);
    assert!(matches!(back[0].status, Status::Failed));
    match state.fetch(&"w1".to_string()) {
        FetchResponse::Terminate(_) => {}
        _ => panic!("a reaped worker must be told to terminate"),
    }
}

#[test]
fn reaper_leaves_other_workers_and_jobs_alone() {
    let mut state = State::new();
    state.register_with("stale".to_string());
    state.register_with("fresh".to_string());
    state.submit(vec![
        Job {
            id: 0,
            cmd: String::from("a"),
            status: Status::Submitted,
        },
        Job {
            id: 0,
            cmd: String::from("b"),
            status: Status::Submitted,
        },
    ]);
    // Youngest first: job 2 to the stale worker, job 1 to the fresh one.
    match state.fetch(&"stale".to_string()) {
        FetchResponse::Jobs(js) => assert_eq!(js[0].id, 2),
        _ => panic!("dispatch to the stale worker should succeed"),
    }
    match state.fetch(&"fresh".to_string()) {
        FetchResponse::Jobs(js) => assert_eq!(js[0].id, 1),
        _ => panic!("dispatch to the fresh worker should succeed"),
    }
    state.heartbeat_at(&"stale".to_string(), 0);
    state.heartbeat_at(&"fresh".to_string(), STALE_SECS);

    state.reap_at(STALE_SECS);

    assert_eq!(state.workers.len(), 1);
    assert_eq!(state.workers[0].id, "fresh");
    let back = state.status(&vec![StatusRequest { id: 1 }, StatusRequest { id: 2 }]);
    match &back.iter().find(|j| j.id == 1).unwrap().status {
        Status::Running(w) => assert_eq!(w, "fresh"),
        _ => panic!("the fresh worker's job must keep running"),
    }
    assert!(matches!(
        back.iter().find(|j| j.id == 2).unwrap().status,
        Status::Failed
    ));
}

#[test]
fn is_alive_tracks_the_registry() {
    let mut state = State::new();
    assert!(!state.is_alive(&"w1".to_string()));
    state.register_with("w1".to_string());
    assert!(state.is_alive(&"w1".to_string()));
    state.heartbeat_at(&"w1".to_string(), 0);
    state.reap_at(STALE_SECS);
    assert!(!state.is_alive(&"w1".to_string()));
}

#[test]
fn heartbeat_for_unknown_id_is_a_silent_no_op() {
    let mut state = State::new();
    state.register_with("known".to_string());
    state.heartbeat(&Heartbeat {
        id: "unknown".to_string(),
    });
    assert_eq!(state.workers.len(), 1);
    assert!(state.workers[0].last_heartbeat.is_none());
}

#[test]
fn heartbeat_updates_only_the_matching_worker() {
    let mut state = State::new();
    state.register_with("a".to_string());
    state.register_with("b".to_string());
    state.heartbeat_at(&"b".to_string(), 42);
    assert!(state.workers[0].last_heartbeat.is_none());
    assert_eq!(state.workers[1].last_heartbeat, Some(42));
}

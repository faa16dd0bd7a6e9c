//! The authorization gate: a wrong or missing secret is rejected and
//! mutates nothing.

use zoidberg::auth::{AuthError, Authorization};
use zoidberg::protocol::{Request, Response};
use zoidberg::state::State;
use zoidberg::types::{Job, Status, StatusRequest};

#[test]
fn check_accepts_exactly_the_secret() {
    let secret = String::from("hunter2");
    let right = String::from("hunter2");
    let wrong = String::from("hunter3");
    assert!(Authorization::check(Some(&right), &secret).is_ok());
    assert!(matches!(
        Authorization::check(Some(&wrong), &secret),
        Err(AuthError::Unauthorized)
    ));
    assert!(matches!(
        Authorization::check(None, &secret),
        Err(AuthError::Unauthorized)
    ));
}

#[test]
fn unauthorized_submit_mutates_nothing() {
    let mut state = State::new();
    let wrong = String::from("guess");
    let req = Request::Submit(vec![Job {
        id: 0,
        cmd: String::from("rm -rf /tmp/scratch"),
        status: Status::Submitted,
    }]);
    match state.handle(req, Some(&wrong), &String::from("secret")) {
        Response::Unauthorized => {}
        _ => panic!("a wrong secret must be rejected"),
    }
    assert_eq!(state.counter_jobs, 0);
    assert_eq!(state.jobs.len(), 0);
    assert_eq!(state.new_jobs.len(), 0);
}

#[test]
fn unauthorized_register_mutates_nothing() {
    let mut state = State::new();
    match state.handle(Request::Register, None, &String::from("secret")) {
        Response::Unauthorized => {}
        _ => panic!("a missing secret must be rejected"),
    }
    assert_eq!(state.workers.len(), 0);
}

#[test]
fn authorized_status_is_read_only() {
    let mut state = State::new();
    state.submit(vec![Job {
        id: 0,
        cmd: String::from("x"),
        status: Status::Submitted,
    }]);
    let cookie = String::from("secret");
    let req = Request::Status(vec![StatusRequest { id: 1 }]);
    match state.handle(req, Some(&cookie), &String::from("secret")) {
        Response::Statuses(js) => assert_eq!(js.len(), 1),
        _ => panic!("status should answer a job list"),
    }
    assert_eq!(state.jobs.len(), 1);
    assert_eq!(state.new_jobs.len(), 1);
}
